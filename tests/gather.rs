use unrust_core::texture::Texture;

fn strs(v: &[&str]) -> Vec<String> {
    v.iter().map(|s| s.to_string()).collect()
}

#[test]
fn cubemap_face_order() {
    assert_eq!(
        Texture::gather("sky_cubemap.png"),
        strs(&[
            "sky_right.png",
            "sky_left.png",
            "sky_top.png",
            "sky_bottom.png",
            "sky_front.png",
            "sky_back.png"
        ])
    );
}

#[test]
fn cubemap_keeps_parent_directory() {
    assert_eq!(
        Texture::gather("assets/env/sky_cubemap.jpg"),
        strs(&[
            "assets/env/sky_right.jpg",
            "assets/env/sky_left.jpg",
            "assets/env/sky_top.jpg",
            "assets/env/sky_bottom.jpg",
            "assets/env/sky_front.jpg",
            "assets/env/sky_back.jpg"
        ])
    );
}

#[test]
fn cubemap_suffix_ignores_case() {
    let v = Texture::gather("Night_CubeMap.PNG");
    assert_eq!(v.len(), 6);
    assert_eq!(v[0], "Night_right.PNG");
    assert_eq!(v[5], "Night_back.PNG");
}

#[test]
fn bare_cubemap_tag_gives_empty_base() {
    let v = Texture::gather("_cubemap.png");
    assert_eq!(v[0], "_right.png");
    assert_eq!(v[3], "_bottom.png");
}

#[test]
fn non_cubemap_passthrough() {
    assert_eq!(Texture::gather("rock.jpg"), strs(&["rock.jpg"]));
}

#[test]
fn name_without_extension_passes_through() {
    assert_eq!(Texture::gather("sky_cubemap"), strs(&["sky_cubemap"]));
}

#[test]
fn cubemap_in_directory_only_passes_through() {
    assert_eq!(Texture::gather("sky_cubemap/rock.png"), strs(&["sky_cubemap/rock.png"]));
}

#[test]
fn leading_dot_name_passes_through() {
    assert_eq!(Texture::gather("dir/.cubemap"), strs(&["dir/.cubemap"]));
}

#[test]
fn empty_name_passes_through() {
    assert_eq!(Texture::gather(""), strs(&[""]));
}

#[test]
fn trailing_separator_is_not_part_of_the_name() {
    let v = Texture::gather("a/sky_cubemap.png/");
    assert_eq!(v.len(), 6);
    assert_eq!(v[0], "a/sky_right.png");
    assert_eq!(v[5], "a/sky_back.png");
}

#[test]
fn trailing_current_dir_is_not_part_of_the_name() {
    let v = Texture::gather("sky_cubemap.png/.");
    assert_eq!(v[0], "sky_right.png");
    assert_eq!(v[2], "sky_top.png");
}

#[test]
fn trailing_separator_on_plain_name_passes_through_unchanged() {
    assert_eq!(Texture::gather("rock.jpg/"), strs(&["rock.jpg/"]));
}
