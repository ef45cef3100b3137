use terrain_gen::{DrawMode, GenError, MapPlugin, Noise, NoiseConfig, Rgba, TerrainType, FP};

const HALF: i64 = 500_000;

fn base_config() -> NoiseConfig {
    let mut c = NoiseConfig::default();
    c.width = 12;
    c.height = 9;
    c.seed = 7;
    c.octaves = 3;
    c
}

#[test]
fn determinism_same_seed() {
    let c1 = base_config();
    let c2 = base_config();
    let m1 = Noise::from(c1).generate_map().unwrap();
    let m2 = Noise::from(c2).generate_map().unwrap();
    assert_eq!(m1.width(), m2.width());
    assert_eq!(m1.height(), m2.height());
    for y in 0..m1.height() {
        for x in 0..m1.width() {
            assert_eq!(m1.cell(x, y), m2.cell(x, y));
        }
    }
}

#[test]
fn range_invariant() {
    let m = Noise::from(base_config()).generate_map().unwrap();
    for y in 0..m.height() {
        for x in 0..m.width() {
            let v = m.cell(x, y);
            assert!(0 <= v && v <= FP);
        }
    }
}

#[test]
fn flat_field_zero_octaves() {
    let mut c = base_config();
    c.octaves = 0;
    let m = Noise::from(c).generate_map().unwrap();
    for y in 0..m.height() {
        for x in 0..m.width() {
            assert_eq!(m.cell(x, y), HALF);
        }
    }
}

#[test]
fn scale_clamp_zero_scale() {
    let mut c = base_config();
    c.scale = 0;
    let m = Noise::from(c).generate_map().unwrap();
    for y in 0..m.height() {
        for x in 0..m.width() {
            let v = m.cell(x, y);
            assert!(0 <= v && v <= FP);
        }
    }
}

#[test]
fn scale_clamp_negative_scale() {
    let mut c = base_config();
    c.scale = -5_000_000;
    let m = Noise::from(c).generate_map().unwrap();
    let v = m.cell(0, 0);
    assert!(0 <= v && v <= FP);
}

#[test]
fn negative_persistence_and_lacunarity_generate() {
    let mut c = base_config();
    c.persistence = -750_000;
    c.lacunarity = -2_000_000;
    let m = Noise::from(c).generate_map().unwrap();
    for y in 0..m.height() {
        for x in 0..m.width() {
            let v = m.cell(x, y);
            assert!(0 <= v && v <= FP);
        }
    }
}

#[test]
fn zero_width_is_invalid_dimension() {
    let mut c = base_config();
    c.width = 0;
    match Noise::from(c).generate_map() {
        Err(GenError::InvalidDimension) => {},
        Ok(_) => panic!("a zero-sided grid must be rejected"),
    }
}

#[test]
fn zero_height_is_invalid_dimension() {
    let mut c = base_config();
    c.height = 0;
    match Noise::from(c).generate_map() {
        Err(GenError::InvalidDimension) => {},
        Ok(_) => panic!("a zero-sided grid must be rejected"),
    }
}

#[test]
fn mesh_sizing() {
    let mut c = base_config();
    c.width = 4;
    c.height = 3;
    let m = Noise::from(c).generate_map().unwrap();
    let mesh = m.generate_mesh();
    assert_eq!(mesh.vertices.len(), 12);
    assert_eq!(mesh.uvs.len(), 12);
    assert_eq!(mesh.triangles.len(), (4 - 1) * (3 - 1) * 6);
    assert_eq!(mesh.triangles.len(), 36);
    for &t in mesh.triangles.iter() {
        assert!(t < 12);
    }
}

#[test]
fn triangulation_single_quad() {
    let mut c = base_config();
    c.width = 2;
    c.height = 2;
    let m = Noise::from(c).generate_map().unwrap();
    let mesh = m.generate_mesh();
    assert_eq!(mesh.triangles, vec![0, 3, 2, 3, 0, 1]);
}

#[test]
fn mesh_vertices_centered_flat() {
    let mut c = base_config();
    c.width = 2;
    c.height = 2;
    c.octaves = 0;
    let m = Noise::from(c).generate_map().unwrap();
    let mesh = m.generate_mesh();
    // top_left_x = -0.5, top_left_z = 0.5; all heights are the flat 0.5.
    assert_eq!(mesh.vertices[0].x, -HALF);
    assert_eq!(mesh.vertices[0].y, HALF);
    assert_eq!(mesh.vertices[0].z, HALF);
    assert_eq!(mesh.vertices[1].x, HALF);
    assert_eq!(mesh.vertices[1].z, HALF);
    assert_eq!(mesh.vertices[3].x, HALF);
    assert_eq!(mesh.vertices[3].z, -HALF);
    // uv of cell (1, 1) is (1/2, 1/2).
    assert_eq!(mesh.uvs[3].x, HALF);
    assert_eq!(mesh.uvs[3].y, HALF);
}

#[test]
fn colorize_idempotent() {
    let m = Noise::from(base_config()).generate_map().unwrap();
    let c1 = m.colorize_map();
    let c2 = m.colorize_map();
    assert_eq!(c1, c2);
}

#[test]
fn colorize_length_matches_grid() {
    let m = Noise::from(base_config()).generate_map().unwrap();
    let colors = m.colorize_map();
    assert_eq!(colors.len(), m.width() * m.height());
}

#[test]
fn raw_noise_mode_is_grayscale() {
    let mut c = base_config();
    c.draw_mode = DrawMode::RawNoise;
    let m = Noise::from(c).generate_map().unwrap();
    let colors = m.colorize_map();
    for (k, col) in colors.iter().enumerate() {
        let v = m.cell(k % 12, k / 12);
        assert_eq!(col.r, col.g);
        assert_eq!(col.g, col.b);
        assert_eq!(col.a, FP);
        // lerp(black, white, v) puts the height itself in each channel
        assert_eq!(col.r, v);
    }
}

#[test]
fn plugin_regenerates_mesh_only_in_mesh_mode() {
    let mut c = base_config();
    c.draw_mode = DrawMode::Mesh;
    let (map, colors, mesh) = MapPlugin::regenerate(c).unwrap();
    assert_eq!(colors.len(), map.width() * map.height());
    let mesh = mesh.expect("mesh mode must produce a mesh");
    assert_eq!(mesh.vertices.len(), map.width() * map.height());

    let mut c2 = base_config();
    c2.draw_mode = DrawMode::RegionColor;
    let (_, _, mesh2) = MapPlugin::regenerate(c2).unwrap();
    assert!(mesh2.is_none());
}

#[test]
fn plugin_rejects_empty_grid() {
    let mut c = base_config();
    c.width = 0;
    assert!(matches!(MapPlugin::regenerate(c), Err(GenError::InvalidDimension)));
}

#[test]
fn uncovered_region_is_transparent() {
    let mut c = base_config();
    c.draw_mode = DrawMode::RegionColor;
    // A single band whose threshold covers nothing: every cell stays
    // at the transparent default.
    c.regions = vec![TerrainType {
        height: -1,
        color: Rgba { r: FP, g: 0, b: 0, a: FP },
        name: "Nowhere".to_string(),
    }];
    let m = Noise::from(c).generate_map().unwrap();
    let colors = m.colorize_map();
    for col in colors.iter() {
        assert_eq!(*col, Rgba { r: 0, g: 0, b: 0, a: 0 });
    }
}
