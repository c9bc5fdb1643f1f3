use unrust_core::texture::{
    AssetError, BindPoint, GlCall, Image, PixelSource, Resource, TexParam, TexValue, Texture,
    TextureAsset, TextureFiltering, TextureTarget,
};

fn ready(w: u32, h: u32) -> Resource {
    Resource::Ready(Image { width: w, height: h, pixels: vec![0u8; (w * h * 4) as usize] })
}

fn params(target: TextureTarget, v: TexValue, cube: bool) -> Vec<GlCall> {
    let mut p = vec![
        GlCall::TexParameter(target, TexParam::MagFilter, v),
        GlCall::TexParameter(target, TexParam::MinFilter, v),
        GlCall::TexParameter(target, TexParam::WrapS, TexValue::ClampToEdge),
        GlCall::TexParameter(target, TexParam::WrapT, TexValue::ClampToEdge),
    ];
    if cube {
        p.push(GlCall::TexParameter(target, TexParam::WrapR, TexValue::ClampToEdge));
    }
    p
}

#[test]
fn prepare_compiles_once() {
    let mut t = Texture::new_from_resource(TextureAsset::Single(ready(2, 3)));
    let first = t.prepare(5).unwrap();
    let mut expected = vec![
        GlCall::CreateTexture(5),
        GlCall::ActiveTexture(0),
        GlCall::BindTexture(TextureTarget::Texture2d, 5),
        GlCall::TexImage2d {
            point: BindPoint::Texture2d,
            width: 2,
            height: 3,
            source: PixelSource::Face(0),
        },
    ];
    expected.extend(params(TextureTarget::Texture2d, TexValue::Linear, false));
    expected.push(GlCall::Unbind(TextureTarget::Texture2d));
    assert_eq!(first, expected);
    for h in 6..10 {
        assert_eq!(t.prepare(h).unwrap(), Vec::new());
    }
    let creates = first.iter().filter(|c| matches!(c, GlCall::CreateTexture(_))).count();
    assert_eq!(creates, 1);
}

#[test]
fn render_target_binding() {
    let mut t = Texture::new_render_texture(256, 256);
    let calls = t.prepare(7).unwrap();
    let mut expected = vec![
        GlCall::CreateTexture(7),
        GlCall::ActiveTexture(0),
        GlCall::BindTexture(TextureTarget::Texture2d, 7),
        GlCall::TexImage2d {
            point: BindPoint::Texture2d,
            width: 256,
            height: 256,
            source: PixelSource::Empty,
        },
    ];
    expected.extend(params(TextureTarget::Texture2d, TexValue::Linear, false));
    expected.push(GlCall::AttachColor0(7));
    expected.push(GlCall::Unbind(TextureTarget::Texture2d));
    assert_eq!(calls, expected);
    assert!(!calls
        .iter()
        .any(|c| matches!(c, GlCall::TexImage2d { source: PixelSource::Face(_), .. })));
    assert_eq!(t.image_count(), 0);
}

#[test]
fn bind_pending_fails_fast() {
    let mut t = Texture::new_from_resource(TextureAsset::Single(Resource::Pending));
    assert_eq!(t.bind(0, 1), Err(AssetError::NotReady));
    assert_eq!(t.bind(0, 1), Err(AssetError::NotReady));
}

#[test]
fn bind_failed_image_reports_load_failure() {
    let mut t = Texture::new_from_resource(TextureAsset::Single(Resource::Failed));
    assert_eq!(t.prepare(1), Err(AssetError::LoadFailed));
}

#[test]
fn retry_succeeds_once_image_is_ready() {
    let mut t = Texture::new_from_resource(TextureAsset::Single(Resource::Pending));
    assert_eq!(t.prepare(1), Err(AssetError::NotReady));
    t.set_image(0, ready(4, 4));
    let calls = t.prepare(2).unwrap();
    assert_eq!(calls[0], GlCall::CreateTexture(2));
    assert!(matches!(t.image(0), Resource::Ready(img) if img.width == 4));
}

#[test]
fn cube_first_unready_face_decides_error() {
    let faces = [ready(1, 1), ready(1, 1), Resource::Failed, ready(1, 1), Resource::Pending, ready(1, 1)];
    let mut t = Texture::new_from_resource(TextureAsset::Cube(faces));
    assert_eq!(t.prepare(1), Err(AssetError::LoadFailed));
    let faces = [ready(1, 1), Resource::Pending, Resource::Failed, ready(1, 1), ready(1, 1), ready(1, 1)];
    let mut t = Texture::new_from_resource(TextureAsset::Cube(faces));
    assert_eq!(t.prepare(1), Err(AssetError::NotReady));
}

#[test]
fn cube_uploads_faces_in_order() {
    let faces = [ready(1, 1), ready(2, 2), ready(3, 3), ready(4, 4), ready(5, 5), ready(6, 6)];
    let mut t = Texture::new_from_resource(TextureAsset::Cube(faces));
    assert_eq!(t.image_count(), 6);
    let calls = t.prepare(9).unwrap();
    let points = [
        BindPoint::CubePositiveX,
        BindPoint::CubeNegativeX,
        BindPoint::CubePositiveY,
        BindPoint::CubeNegativeY,
        BindPoint::CubePositiveZ,
        BindPoint::CubeNegativeZ,
    ];
    let mut expected = vec![
        GlCall::CreateTexture(9),
        GlCall::ActiveTexture(0),
        GlCall::BindTexture(TextureTarget::CubeMap, 9),
    ];
    for i in 0..6 {
        expected.push(GlCall::TexImage2d {
            point: points[i],
            width: i as u32 + 1,
            height: i as u32 + 1,
            source: PixelSource::Face(i),
        });
    }
    expected.extend(params(TextureTarget::CubeMap, TexValue::Linear, true));
    expected.push(GlCall::Unbind(TextureTarget::CubeMap));
    assert_eq!(calls, expected);
    let bound = t.bind(3, 10).unwrap();
    assert_eq!(
        bound,
        vec![GlCall::ActiveTexture(3), GlCall::BindTexture(TextureTarget::CubeMap, 9)]
    );
}

#[test]
fn nearest_filtering_sets_both_filters() {
    let mut t = Texture::new_from_resource(TextureAsset::from_image(Image {
        width: 1,
        height: 1,
        pixels: vec![1, 2, 3, 4],
    }));
    t.filtering = TextureFiltering::Nearest;
    let calls = t.prepare(1).unwrap();
    assert_eq!(calls[4..8].to_vec(), params(TextureTarget::Texture2d, TexValue::Nearest, false));
}

#[test]
fn filtering_change_after_compile_is_not_applied() {
    let mut t = Texture::new_from_resource(TextureAsset::Single(ready(1, 1)));
    let first = t.bind(0, 4).unwrap();
    assert_eq!(first[0], GlCall::CreateTexture(4));
    t.filtering = TextureFiltering::Nearest;
    assert_eq!(
        t.bind(2, 5).unwrap(),
        vec![GlCall::ActiveTexture(2), GlCall::BindTexture(TextureTarget::Texture2d, 4)]
    );
}

#[test]
fn load_six_files_makes_cube() {
    let files = vec![ready(1, 1), ready(2, 2), ready(3, 3), ready(4, 4), ready(5, 5), ready(6, 6)];
    match Texture::load(files) {
        TextureAsset::Cube(rs) => {
            assert!(matches!(&rs[0], Resource::Ready(i) if i.width == 1));
            assert!(matches!(&rs[5], Resource::Ready(i) if i.width == 6));
        }
        _ => panic!("expected a cube map"),
    }
}

#[test]
fn load_one_file_makes_single() {
    match Texture::load(vec![Resource::Pending]) {
        TextureAsset::Single(Resource::Pending) => {}
        _ => panic!("expected a single pending image"),
    }
}
