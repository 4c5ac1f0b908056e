use rusterizer::fixed::Fixed;
use rusterizer::frame::new_depth_buffer;
use rusterizer::frame::Frame;
use rusterizer::frame::State;
use rusterizer::mesh::Vertex;
use rusterizer::raster::draw_triangle;
use rusterizer::shading::RenderState;
use rusterizer::shading::ShadeFn;
use rusterizer::vector::Mat4;
use rusterizer::vector::Vec2;
use rusterizer::vector::Vec3;
use rusterizer::vector::Vec4;

const SIZE: usize = 200;

fn fx(v: f32) -> Fixed {
    Fixed::from_raw((v as f64 * 65536.0).round() as i32)
}

fn mat4(m: &glam::Mat4) -> Mat4 {
    let col = |v: glam::Vec4| Vec4::new(fx(v.x), fx(v.y), fx(v.z), fx(v.w));
    Mat4::from_cols(col(m.x_axis), col(m.y_axis), col(m.z_axis), col(m.w_axis))
}

fn vertex(position: glam::Vec3, color: glam::Vec3) -> Vertex {
    Vertex {
        position: Vec4::new(fx(position.x), fx(position.y), fx(position.z), Fixed::one()),
        color: Vec3::new(fx(color.x), fx(color.y), fx(color.z)),
        uv: Vec2::new(Fixed::zero(), Fixed::zero()),
    }
}

// The same triangle drawn with floating-point numbers: divide by w, map to
// the viewport, test each pixel centre against the three edges, blend the
// colours weighted by 1/w and correct them.
fn reference(corners: [(glam::Vec4, glam::Vec3); 3]) -> Vec<Option<(f32, glam::Vec3)>> {
    let size = SIZE as f32;
    let rec: Vec<f32> = corners.iter().map(|c| 1.0 / c.0.w).collect();
    let sc: Vec<glam::Vec2> = corners
        .iter()
        .zip(&rec)
        .map(|(c, r)| {
            let ndc = c.0 * *r;
            glam::Vec2::new((ndc.x + 1.0) * size / 2.0, (-ndc.y + 1.0) * size / 2.0)
        })
        .collect();
    let edge = |a: glam::Vec2, b: glam::Vec2, p: glam::Vec2| {
        (p.x - a.x) * (b.y - a.y) - (p.y - a.y) * (b.x - a.x)
    };
    let area = edge(sc[0], sc[1], sc[2]);
    let mut out = vec![None; SIZE * SIZE];
    for x in 0..SIZE {
        for y in 0..SIZE {
            let p = glam::Vec2::new(x as f32 + 0.5, y as f32 + 0.5);
            let m0 = edge(p, sc[1], sc[2]);
            let m1 = edge(p, sc[2], sc[0]);
            let m2 = edge(p, sc[0], sc[1]);
            if m0 > 0.0 && m1 > 0.0 && m2 > 0.0 {
                let b = glam::Vec3::new(m0, m1, m2) / area;
                let correction = 1.0 / (b.x * rec[0] + b.y * rec[1] + b.z * rec[2]);
                let color = (b.x * corners[0].1 * rec[0]
                    + b.y * corners[1].1 * rec[1]
                    + b.z * corners[2].1 * rec[2])
                    * correction;
                out[x * SIZE + y] = Some((correction, color));
            }
        }
    }
    out
}

#[test]
fn fixed_point_draw_agrees_with_a_floating_point_draw() {
    let projection = glam::camera::rh::proj::directx::perspective(0.9, 1.0, 0.1, 100.0);
    let view = glam::camera::rh::view::look_at_mat4(
        glam::Vec3::new(0.3, 0.5, 4.0),
        glam::Vec3::new(0.0, 0.0, 0.0),
        glam::Vec3::Y,
    );
    let local = glam::Mat4::from_scale_rotation_translation(
        glam::Vec3::splat(1.5),
        glam::Quat::from_rotation_y(0.7),
        glam::Vec3::new(0.2, -0.1, -1.0),
    );
    let mvp = projection * view * local;
    let positions = [
        glam::Vec3::new(-1.0, -1.0, 0.0),
        glam::Vec3::new(1.0, -0.6, 0.5),
        glam::Vec3::new(-0.2, 1.0, -0.5),
    ];
    let colors = [
        glam::Vec3::new(1.0, 0.0, 0.0),
        glam::Vec3::new(0.0, 1.0, 0.0),
        glam::Vec3::new(0.0, 0.0, 1.0),
    ];
    // wind the triangle so that it faces the camera
    let clip: Vec<glam::Vec4> = positions.iter().map(|p| mvp * p.extend(1.0)).collect();
    let facing = (clip[1].x - clip[0].x) * (clip[2].y - clip[0].y)
        - (clip[1].y - clip[0].y) * (clip[2].x - clip[0].x);
    let order: [usize; 3] = if facing > 0.0 { [0, 1, 2] } else { [0, 2, 1] };
    let corners = [
        (clip[order[0]], colors[order[0]]),
        (clip[order[1]], colors[order[1]]),
        (clip[order[2]], colors[order[2]]),
    ];
    for c in &corners {
        assert!(c.0.z > 0.0 && c.0.z < c.0.w);
    }
    let expected = reference(corners);

    let shared = State {
        version: 1,
        time_passed: Fixed::zero(),
        meshes: Vec::new(),
        textures: Vec::new(),
        should_clear: true,
        clear_color: 0,
    };
    let state = RenderState::from_shade_fn(&shared, ShadeFn::VertexColor, None);
    let mut frame = Frame::new(SIZE, SIZE, 0);
    let mut depth = new_depth_buffer(SIZE, SIZE);
    let vertices: Vec<Vertex> =
        order.iter().map(|i| vertex(positions[*i], colors[*i])).collect();
    draw_triangle(
        [&vertices[0], &vertices[1], &vertices[2]],
        &state,
        &mat4(&mvp),
        Vec3::new(Fixed::zero(), Fixed::zero(), Fixed::one()),
        Vec2::new(Fixed::from_int(SIZE as i32), Fixed::from_int(SIZE as i32)),
        &mut depth,
        &mut frame,
    );

    let mut covered = 0;
    let mut disagree = 0;
    for i in 0..SIZE * SIZE {
        let drawn = frame.pixels[i] != 0;
        match expected[i] {
            Some((correction, color)) => {
                covered += 1;
                if !drawn {
                    disagree += 1;
                    continue;
                }
                let stored = depth[i].raw as f32 / 65536.0;
                assert!((stored - correction).abs() < 0.01 * correction);
                let channel = |shift: u32| ((frame.pixels[i] >> shift) & 0xff) as f32;
                assert!((channel(16) - color.x * 255.0).abs() < 3.0);
                assert!((channel(8) - color.y * 255.0).abs() < 3.0);
                assert!((channel(0) - color.z * 255.0).abs() < 3.0);
            }
            None => {
                if drawn {
                    disagree += 1;
                }
            }
        }
    }
    // the two draws may differ on pixels whose centre all but touches an edge
    assert!(covered > 2000);
    assert!(disagree * 100 < covered);
}
