//! GPU texture cache: a texture compiles into backend state once, on first
//! use, and is rebound cheaply afterwards. The backend work is returned as a
//! list of calls for the graphics context to perform, in order.
use vstd::prelude::*;

verus! {

#[derive(PartialEq, Eq, Structural, Clone, Copy, Debug)]
pub enum TextureFiltering {
    Nearest,
    Linear,
}

/// A decoded RGBA image.
#[derive(Debug)]
pub struct Image {
    pub width: u32,
    pub height: u32,
    pub pixels: Vec<u8>,
}

/// A decoded image as loading has left it so far.
#[derive(Debug)]
pub enum Resource {
    Pending,
    Failed,
    Ready(Image),
}

/// Why a texture could not be compiled now; the caller may retry later.
#[derive(PartialEq, Eq, Structural, Clone, Copy, Debug)]
pub enum AssetError {
    /// A backing image is still loading.
    NotReady,
    /// A backing image failed to load or decode.
    LoadFailed,
}

/// What the loader hands over: one image, or six cube faces.
#[derive(Debug)]
pub enum TextureAsset {
    Single(Resource),
    Cube([Resource; 6]),
}

#[derive(Debug)]
enum TextureKind {
    Image(Resource),
    CubeMap([Resource; 6]),
    RenderTexture { width: u32, height: u32 },
}

#[derive(PartialEq, Eq, Structural, Clone, Copy, Debug)]
pub enum TextureTarget {
    Texture2d,
    CubeMap,
}

#[derive(PartialEq, Eq, Structural, Clone, Copy, Debug)]
pub enum BindPoint {
    Texture2d,
    CubePositiveX,
    CubeNegativeX,
    CubePositiveY,
    CubeNegativeY,
    CubePositiveZ,
    CubeNegativeZ,
}

#[derive(PartialEq, Eq, Structural, Clone, Copy, Debug)]
pub enum TexParam {
    MagFilter,
    MinFilter,
    WrapS,
    WrapT,
    WrapR,
}

#[derive(PartialEq, Eq, Structural, Clone, Copy, Debug)]
pub enum TexValue {
    Nearest,
    Linear,
    ClampToEdge,
}

/// Where the pixels of an upload come from.
#[derive(PartialEq, Eq, Structural, Clone, Copy, Debug)]
pub enum PixelSource {
    /// No pixels: storage of the declared size only.
    Empty,
    /// The pixels of the texture's image with this index.
    Face(usize),
}

/// One call on the graphics context. Texture objects are named by handles
/// that the caller chooses.
#[derive(PartialEq, Eq, Structural, Clone, Copy, Debug)]
pub enum GlCall {
    CreateTexture(u32),
    ActiveTexture(u32),
    BindTexture(TextureTarget, u32),
    TexImage2d { point: BindPoint, width: u32, height: u32, source: PixelSource },
    TexParameter(TextureTarget, TexParam, TexValue),
    /// Attach the texture as color attachment 0 of the current framebuffer.
    AttachColor0(u32),
    Unbind(TextureTarget),
}

/// The backend state of a compiled texture.
#[derive(PartialEq, Eq, Structural, Clone, Copy, Debug)]
pub struct CompiledTexture {
    pub handle: u32,
    pub target: TextureTarget,
    pub filtering: TextureFiltering,
}

#[derive(Debug)]
pub struct Texture {
    pub filtering: TextureFiltering,
    gl_state: Option<CompiledTexture>,
    kind: TextureKind,
}

pub open spec fn resource_error(r: Resource) -> Option<AssetError> {
    match r {
        Resource::Pending => Some(AssetError::NotReady),
        Resource::Failed => Some(AssetError::LoadFailed),
        Resource::Ready(_) => None,
    }
}

/// The error of the first image from index `i` on that is not ready.
pub open spec fn first_error(rs: Seq<Resource>, i: int) -> Option<AssetError>
    decreases rs.len() - i,
{
    if i < 0 || i >= rs.len() {
        None
    } else if resource_error(rs[i]) is Some {
        resource_error(rs[i])
    } else {
        first_error(rs, i + 1)
    }
}

pub open spec fn face_bind_point(i: int) -> BindPoint {
    if i == 0 {
        BindPoint::CubePositiveX
    } else if i == 1 {
        BindPoint::CubeNegativeX
    } else if i == 2 {
        BindPoint::CubePositiveY
    } else if i == 3 {
        BindPoint::CubeNegativeY
    } else if i == 4 {
        BindPoint::CubePositiveZ
    } else {
        BindPoint::CubeNegativeZ
    }
}

pub open spec fn filter_value(f: TextureFiltering) -> TexValue {
    match f {
        TextureFiltering::Nearest => TexValue::Nearest,
        TextureFiltering::Linear => TexValue::Linear,
    }
}

/// Sampling set-up: both filters from the one filtering mode, and clamping
/// on every axis (R too for a cube map).
pub open spec fn param_calls(target: TextureTarget, f: TextureFiltering) -> Seq<GlCall> {
    seq![
        GlCall::TexParameter(target, TexParam::MagFilter, filter_value(f)),
        GlCall::TexParameter(target, TexParam::MinFilter, filter_value(f)),
        GlCall::TexParameter(target, TexParam::WrapS, TexValue::ClampToEdge),
        GlCall::TexParameter(target, TexParam::WrapT, TexValue::ClampToEdge),
    ] + if target == TextureTarget::CubeMap {
        seq![GlCall::TexParameter(target, TexParam::WrapR, TexValue::ClampToEdge)]
    } else {
        Seq::empty()
    }
}

pub open spec fn setup_calls(target: TextureTarget, handle: u32) -> Seq<GlCall> {
    seq![
        GlCall::CreateTexture(handle),
        GlCall::ActiveTexture(0),
        GlCall::BindTexture(target, handle),
    ]
}

pub open spec fn image_upload(point: BindPoint, r: Resource, i: usize) -> GlCall {
    match r {
        Resource::Ready(img) => GlCall::TexImage2d {
            point,
            width: img.width,
            height: img.height,
            source: PixelSource::Face(i),
        },
        _ => GlCall::TexImage2d { point, width: 0, height: 0, source: PixelSource::Face(i) },
    }
}

pub open spec fn is_upload_of_pixels(c: GlCall) -> bool {
    c matches GlCall::TexImage2d { source: PixelSource::Face(_), .. }
}

pub open spec fn is_create(c: GlCall) -> bool {
    c is CreateTexture
}

impl Texture {
    /// The filtering mode that the next compile will use.
    pub closed spec fn filter(&self) -> TextureFiltering {
        self.filtering
    }

    pub closed spec fn compiled(&self) -> Option<CompiledTexture> {
        self.gl_state
    }

    pub closed spec fn is_render_target(&self) -> bool {
        self.kind is RenderTexture
    }

    pub closed spec fn is_cube_map(&self) -> bool {
        self.kind is CubeMap
    }

    /// The images backing the texture, in face order; none for a render target.
    pub closed spec fn resources(&self) -> Seq<Resource> {
        match self.kind {
            TextureKind::Image(r) => seq![r],
            TextureKind::CubeMap(rs) => rs@,
            TextureKind::RenderTexture { .. } => Seq::empty(),
        }
    }

    pub closed spec fn target(&self) -> TextureTarget {
        match self.kind {
            TextureKind::CubeMap(_) => TextureTarget::CubeMap,
            _ => TextureTarget::Texture2d,
        }
    }

    /// Why compiling would fail now, if it would.
    pub open spec fn load_error(&self) -> Option<AssetError> {
        first_error(self.resources(), 0)
    }

    /// The uploads of a compile: each image to its bind point, or, for a
    /// render target, storage of its size with no pixels.
    pub closed spec fn upload_calls(&self) -> Seq<GlCall> {
        match self.kind {
            TextureKind::Image(r) => seq![image_upload(BindPoint::Texture2d, r, 0)],
            TextureKind::CubeMap(rs) => Seq::new(
                6,
                |i: int| image_upload(face_bind_point(i), rs[i], i as usize),
            ),
            TextureKind::RenderTexture { width, height } => seq![
                GlCall::TexImage2d {
                    point: BindPoint::Texture2d,
                    width,
                    height,
                    source: PixelSource::Empty,
                },
            ],
        }
    }

    /// The whole compile sequence, creating the backend object `handle`.
    pub open spec fn compile_calls(&self, handle: u32) -> Seq<GlCall> {
        setup_calls(self.target(), handle) + self.upload_calls() + param_calls(
            self.target(),
            self.filter(),
        ) + if self.is_render_target() {
            seq![GlCall::AttachColor0(handle)]
        } else {
            Seq::empty()
        } + seq![GlCall::Unbind(self.target())]
    }

    /// The texture is the same but for its compiled state.
    pub closed spec fn same_source(&self, other: Texture) -> bool {
        &&& self.filtering == other.filtering
        &&& self.kind == other.kind
        &&& self.resources() == other.resources()
        &&& self.target() == other.target()
        &&& self.is_render_target() == other.is_render_target()
        &&& self.upload_calls() == other.upload_calls()
    }

    /// The compiled state that compiling now with `handle` gives.
    pub open spec fn compiled_as(&self, handle: u32) -> CompiledTexture {
        CompiledTexture { handle, target: self.target(), filtering: self.filter() }
    }

    /// The compiled state after a successful `prepare`.
    pub open spec fn compiled_after(&self, handle: u32) -> CompiledTexture {
        match self.compiled() {
            Some(c) => c,
            None => self.compiled_as(handle),
        }
    }

    /// The calls that a successful `prepare` hands back: none when compiled.
    pub open spec fn prepare_calls(&self, handle: u32) -> Seq<GlCall> {
        if self.compiled() is Some {
            Seq::empty()
        } else {
            self.compile_calls(handle)
        }
    }

    /// What `prepare(handle)` does to `before`, leaving `after` and returning `r`.
    pub open spec fn prepare_post(
        before: Texture,
        handle: u32,
        after: Texture,
        r: Result<Vec<GlCall>, AssetError>,
    ) -> bool {
        &&& after.same_source(before)
        &&& (r is Ok) == (before.compiled() is Some || before.load_error() is None)
        &&& r matches Ok(calls) ==> calls@ == before.prepare_calls(handle) && after.compiled()
            == Some(before.compiled_after(handle))
        &&& r matches Err(e) ==> before.compiled() is None && before.load_error() == Some(e)
            && after.compiled() is None
    }

    /// What `bind(unit, handle)` does to `before`, leaving `after` and returning `r`.
    pub open spec fn bind_post(
        before: Texture,
        unit: u32,
        handle: u32,
        after: Texture,
        r: Result<Vec<GlCall>, AssetError>,
    ) -> bool {
        &&& after.same_source(before)
        &&& (r is Ok) == (before.compiled() is Some || before.load_error() is None)
        &&& r matches Ok(calls) ==> calls@ == before.prepare_calls(handle) + seq![
            GlCall::ActiveTexture(unit),
            GlCall::BindTexture(before.target(), before.compiled_after(handle).handle),
        ] && after.compiled() == Some(before.compiled_after(handle))
        &&& r matches Err(e) ==> before.compiled() is None && before.load_error() == Some(e)
            && after.compiled() is None
    }

    /// A texture of the loader's images, with linear filtering, not compiled.
    pub fn new_from_resource(r: TextureAsset) -> (t: Texture)
        ensures
            t.compiled() is None,
            t.filter() == TextureFiltering::Linear,
            !t.is_render_target(),
            match r {
                TextureAsset::Single(res) => !t.is_cube_map() && t.target() == TextureTarget::Texture2d
                    && t.resources() == seq![res],
                TextureAsset::Cube(rs) => t.is_cube_map() && t.target() == TextureTarget::CubeMap
                    && t.resources() == rs@,
            },
    {
        match r {
            TextureAsset::Single(res) => Texture {
                filtering: TextureFiltering::Linear,
                gl_state: None,
                kind: TextureKind::Image(res),
            },
            TextureAsset::Cube(rs) => Texture {
                filtering: TextureFiltering::Linear,
                gl_state: None,
                kind: TextureKind::CubeMap(rs),
            },
        }
    }

    /// A render target of the given size, with linear filtering, not compiled.
    pub fn new_render_texture(width: u32, height: u32) -> (t: Texture)
        ensures
            t.compiled() is None,
            t.filter() == TextureFiltering::Linear,
            t.is_render_target(),
            !t.is_cube_map(),
            t.target() == TextureTarget::Texture2d,
            t.resources() == Seq::<Resource>::empty(),
            t.upload_calls() == seq![
                GlCall::TexImage2d {
                    point: BindPoint::Texture2d,
                    width,
                    height,
                    source: PixelSource::Empty,
                },
            ],
    {
        Texture {
            filtering: TextureFiltering::Linear,
            gl_state: None,
            kind: TextureKind::RenderTexture { width, height },
        }
    }

    /// Why the backing images cannot be read now, if they cannot: the state
    /// of the first one, in face order, that is not ready.
    fn check_ready(&self) -> (r: Option<AssetError>)
        ensures
            r == self.load_error(),
    {
        match &self.kind {
            TextureKind::Image(res) => {
                proof {
                    reveal_with_fuel(first_error, 2);
                }
                resource_state(res)
            },
            TextureKind::CubeMap(rs) => {
                let mut i: usize = 0;
                while i < 6
                    invariant
                        i <= 6,
                        rs@.len() == 6,
                        self.resources() == rs@,
                        first_error(rs@, 0) == first_error(rs@, i as int),
                    decreases 6 - i,
                {
                    let e = resource_state(&rs[i]);
                    if e.is_some() {
                        return e;
                    }
                    i = i + 1;
                }
                None
            },
            TextureKind::RenderTexture { .. } => None,
        }
    }

    /// The calls that compile this texture into the backend object `handle`:
    /// create and bind it, upload the images (or allocate the render
    /// target), set sampling, attach a render target to the framebuffer,
    /// and unbind.
    fn compile_plan(&self, handle: u32) -> (v: Vec<GlCall>)
        requires
            self.load_error() is None,
        ensures
            v@ == self.compile_calls(handle),
    {
        let target = match &self.kind {
            TextureKind::CubeMap(_) => TextureTarget::CubeMap,
            _ => TextureTarget::Texture2d,
        };
        let mut v: Vec<GlCall> = Vec::new();
        v.push(GlCall::CreateTexture(handle));
        v.push(GlCall::ActiveTexture(0));
        v.push(GlCall::BindTexture(target, handle));
        assert(v@ =~= setup_calls(target, handle));
        match &self.kind {
            TextureKind::Image(res) => {
                v.push(upload_of(BindPoint::Texture2d, res, 0));
            },
            TextureKind::CubeMap(rs) => {
                let mut i: usize = 0;
                while i < 6
                    invariant
                        i <= 6,
                        rs@.len() == 6,
                        self.kind == TextureKind::CubeMap(*rs),
                        v@ == setup_calls(target, handle) + self.upload_calls().take(i as int),
                    decreases 6 - i,
                {
                    let c = upload_of(bind_point_of_face(i), &rs[i], i);
                    v.push(c);
                    assert(self.upload_calls().take(i + 1) =~= self.upload_calls().take(
                        i as int,
                    ).push(c));
                    i = i + 1;
                }
                assert(self.upload_calls().take(6) =~= self.upload_calls());
            },
            TextureKind::RenderTexture { width, height } => {
                v.push(
                    GlCall::TexImage2d {
                        point: BindPoint::Texture2d,
                        width: *width,
                        height: *height,
                        source: PixelSource::Empty,
                    },
                );
            },
        }
        let ghost after_upload = v@;
        assert(after_upload =~= setup_calls(target, handle) + self.upload_calls());
        let value = match self.filtering {
            TextureFiltering::Nearest => TexValue::Nearest,
            TextureFiltering::Linear => TexValue::Linear,
        };
        v.push(GlCall::TexParameter(target, TexParam::MagFilter, value));
        v.push(GlCall::TexParameter(target, TexParam::MinFilter, value));
        v.push(GlCall::TexParameter(target, TexParam::WrapS, TexValue::ClampToEdge));
        v.push(GlCall::TexParameter(target, TexParam::WrapT, TexValue::ClampToEdge));
        if let TextureKind::CubeMap(_) = &self.kind {
            v.push(GlCall::TexParameter(target, TexParam::WrapR, TexValue::ClampToEdge));
        }
        assert(v@ =~= after_upload + param_calls(target, self.filtering));
        let ghost after_params = v@;
        if let TextureKind::RenderTexture { .. } = &self.kind {
            v.push(GlCall::AttachColor0(handle));
        }
        v.push(GlCall::Unbind(target));
        assert(v@ =~= self.compile_calls(handle));
        v
    }

    /// Compiles the texture into the backend object `handle` unless it is
    /// compiled already. Fails, changing nothing, while a backing image is
    /// pending or failed; a later call tries again.
    pub fn prepare(&mut self, handle: u32) -> (r: Result<Vec<GlCall>, AssetError>)
        ensures
            Texture::prepare_post(*old(self), handle, *final(self), r),
    {
        if self.gl_state.is_some() {
            return Ok(Vec::new());
        }
        if let Some(e) = self.check_ready() {
            return Err(e);
        }
        let calls = self.compile_plan(handle);
        let target = match &self.kind {
            TextureKind::CubeMap(_) => TextureTarget::CubeMap,
            _ => TextureTarget::Texture2d,
        };
        self.gl_state = Some(CompiledTexture { handle, target, filtering: self.filtering });
        Ok(calls)
    }

    /// Prepares the texture, then activates texture unit `unit` and binds the
    /// compiled object to it (as a cube map for a cube map).
    pub fn bind(&mut self, unit: u32, handle: u32) -> (r: Result<Vec<GlCall>, AssetError>)
        ensures
            Texture::bind_post(*old(self), unit, handle, *final(self), r),
    {
        let ghost before = *self;
        let mut calls = match self.prepare(handle) {
            Ok(c) => c,
            Err(e) => return Err(e),
        };
        let state = match self.gl_state {
            Some(s) => s,
            None => {
                assert(false);
                return Err(AssetError::NotReady);
            }
        };
        let target = match &self.kind {
            TextureKind::CubeMap(_) => TextureTarget::CubeMap,
            _ => TextureTarget::Texture2d,
        };
        calls.push(GlCall::ActiveTexture(unit));
        calls.push(GlCall::BindTexture(target, state.handle));
        assert(calls@ =~= before.prepare_calls(handle) + seq![
            GlCall::ActiveTexture(unit),
            GlCall::BindTexture(before.target(), before.compiled_after(handle).handle),
        ]);
        Ok(calls)
    }
}

impl TextureAsset {
    /// A single-image asset of an image already decoded.
    pub fn from_image(img: Image) -> (a: TextureAsset)
        ensures
            a == TextureAsset::Single(Resource::Ready(img)),
    {
        TextureAsset::Single(Resource::Ready(img))
    }
}

impl Texture {
    /// Bundles the decoded files of a gathered name: six files make a cube
    /// map, in face order; otherwise the first file is the image.
    pub fn load(files: Vec<Resource>) -> (a: TextureAsset)
        requires
            files@.len() >= 1,
        ensures
            files@.len() == 6 ==> (a matches TextureAsset::Cube(rs) && rs@ == files@),
            files@.len() != 6 ==> a == TextureAsset::Single(files@[0]),
    {
        let mut files = files;
        if files.len() == 6 {
            let ghost all = files@;
            let f0 = files.remove(0);
            let f1 = files.remove(0);
            let f2 = files.remove(0);
            let f3 = files.remove(0);
            let f4 = files.remove(0);
            let f5 = files.remove(0);
            let rs = [f0, f1, f2, f3, f4, f5];
            assert(rs@ =~= all);
            TextureAsset::Cube(rs)
        } else {
            TextureAsset::Single(files.remove(0))
        }
    }

    /// How many images back the texture: one, six for a cube map, none for
    /// a render target.
    pub fn image_count(&self) -> (n: usize)
        ensures
            n == self.resources().len(),
    {
        match &self.kind {
            TextureKind::Image(_) => 1,
            TextureKind::CubeMap(_) => 6,
            TextureKind::RenderTexture { .. } => 0,
        }
    }

    /// The backing image with index `i`, as loading has left it.
    pub fn image(&self, i: usize) -> (r: &Resource)
        requires
            i < self.resources().len(),
        ensures
            *r == self.resources()[i as int],
    {
        match &self.kind {
            TextureKind::Image(res) => res,
            TextureKind::CubeMap(rs) => &rs[i],
            TextureKind::RenderTexture { .. } => vstd::pervasive::unreached(),
        }
    }

    /// Records what loading has made of the backing image with index `i`.
    /// The kind, the filtering and any compiled state stay as they are.
    pub fn set_image(&mut self, i: usize, r: Resource)
        requires
            i < old(self).resources().len(),
        ensures
            final(self).resources() == old(self).resources().update(i as int, r),
            final(self).compiled() == old(self).compiled(),
            final(self).filter() == old(self).filter(),
            final(self).target() == old(self).target(),
            final(self).is_render_target() == old(self).is_render_target(),
            final(self).is_cube_map() == old(self).is_cube_map(),
    {
        match &mut self.kind {
            TextureKind::Image(res) => {
                *res = r;
                assert(self.resources() =~= old(self).resources().update(i as int, r));
            },
            TextureKind::CubeMap(rs) => {
                rs[i] = r;
                assert(self.resources() =~= old(self).resources().update(i as int, r));
            },
            TextureKind::RenderTexture { .. } => {},
        }
    }
}

fn resource_state(r: &Resource) -> (e: Option<AssetError>)
    ensures
        e == resource_error(*r),
{
    match r {
        Resource::Pending => Some(AssetError::NotReady),
        Resource::Failed => Some(AssetError::LoadFailed),
        Resource::Ready(_) => None,
    }
}

fn upload_of(point: BindPoint, r: &Resource, i: usize) -> (c: GlCall)
    ensures
        c == image_upload(point, *r, i),
{
    match r {
        Resource::Ready(img) => GlCall::TexImage2d {
            point,
            width: img.width,
            height: img.height,
            source: PixelSource::Face(i),
        },
        _ => GlCall::TexImage2d { point, width: 0, height: 0, source: PixelSource::Face(i) },
    }
}

fn bind_point_of_face(i: usize) -> (b: BindPoint)
    ensures
        b == face_bind_point(i as int),
{
    if i == 0 {
        BindPoint::CubePositiveX
    } else if i == 1 {
        BindPoint::CubeNegativeX
    } else if i == 2 {
        BindPoint::CubePositiveY
    } else if i == 3 {
        BindPoint::CubeNegativeY
    } else if i == 4 {
        BindPoint::CubePositiveZ
    } else {
        BindPoint::CubeNegativeZ
    }
}

/// Every compile sequence creates its backend object first and only there,
/// and uploads pixels only from the texture's own images.
proof fn lemma_compile_calls_shape(t: Texture, handle: u32)
    ensures
        t.compile_calls(handle)[0] == GlCall::CreateTexture(handle),
        forall|i: int|
            0 < i < t.compile_calls(handle).len() ==> !is_create(
                #[trigger] t.compile_calls(handle)[i],
            ),
        t.is_render_target() ==> t.compile_calls(handle).contains(GlCall::AttachColor0(handle)),
        t.is_render_target() ==> forall|i: int|
            0 <= i < t.compile_calls(handle).len() ==> !is_upload_of_pixels(
                #[trigger] t.compile_calls(handle)[i],
            ),
{
    let target = t.target();
    let s = setup_calls(target, handle);
    let u = t.upload_calls();
    let p = param_calls(target, t.filter());
    let a = if t.is_render_target() {
        seq![GlCall::AttachColor0(handle)]
    } else {
        Seq::<GlCall>::empty()
    };
    let e = seq![GlCall::Unbind(target)];
    let all = t.compile_calls(handle);
    assert(all == s + u + p + a + e);
    assert forall|i: int| 0 <= i < u.len() implies !is_create(#[trigger] u[i]) by {}
    assert forall|i: int| 0 <= i < p.len() implies !is_create(#[trigger] p[i]) by {}
    assert forall|i: int| 0 < i < all.len() implies !is_create(#[trigger] all[i]) by {
        if i < 3 {
        } else if i < 3 + u.len() {
            assert(all[i] == u[i - 3]);
        } else if i < 3 + u.len() + p.len() {
            assert(all[i] == p[i - 3 - u.len()]);
        }
    }
    if t.is_render_target() {
        assert(u.len() == 1);
        assert(all[4 + p.len() as int] == GlCall::AttachColor0(handle));
        assert forall|i: int| 0 <= i < all.len() implies !is_upload_of_pixels(#[trigger] all[i]) by {
            if 3 <= i < 4 {
                assert(all[i] == u[i - 3]);
            } else if 4 <= i < 4 + p.len() {
                assert(all[i] == p[i - 4]);
            }
        }
    }
}

/// Compiling happens once: on a texture whose images are ready, a first
/// `prepare` hands back one compile sequence, which creates exactly one
/// backend object; a second `prepare` hands back no calls and leaves the
/// compiled state as the first one made it.
pub proof fn lemma_prepare_compiles_once(
    t0: Texture,
    h1: u32,
    t1: Texture,
    r1: Result<Vec<GlCall>, AssetError>,
    h2: u32,
    t2: Texture,
    r2: Result<Vec<GlCall>, AssetError>,
)
    requires
        t0.compiled() is None,
        t0.load_error() is None,
        Texture::prepare_post(t0, h1, t1, r1),
        Texture::prepare_post(t1, h2, t2, r2),
    ensures
        r1 matches Ok(c1) && c1@ == t0.compile_calls(h1) && c1@[0] == GlCall::CreateTexture(h1)
            && forall|i: int| 0 < i < c1@.len() ==> !is_create(#[trigger] c1@[i]),
        r2 matches Ok(c2) && c2@.len() == 0,
        t1.compiled() == Some(t0.compiled_as(h1)),
        t2.compiled() == t1.compiled(),
{
    lemma_compile_calls_shape(t0, h1);
}

/// A render target compiles without pixel data: its first `prepare`
/// succeeds, attaches the texture to the framebuffer as color attachment 0,
/// and uploads no pixels.
pub proof fn lemma_render_target_attaches(
    t0: Texture,
    handle: u32,
    t1: Texture,
    r: Result<Vec<GlCall>, AssetError>,
)
    requires
        t0.is_render_target(),
        t0.compiled() is None,
        Texture::prepare_post(t0, handle, t1, r),
    ensures
        r matches Ok(calls) && calls@.contains(GlCall::AttachColor0(handle)) && forall|i: int|
            0 <= i < calls@.len() ==> !is_upload_of_pixels(#[trigger] calls@[i]),
        t1.compiled() == Some(t0.compiled_as(handle)),
{
    assert(t0.resources() =~= Seq::<Resource>::empty());
    lemma_compile_calls_shape(t0, handle);
}

/// Binding fails fast on a pending image: `bind` on an uncompiled texture
/// whose image is still loading returns `NotReady`, hands back no calls and
/// leaves the texture uncompiled.
pub proof fn lemma_bind_pending_fails_fast(
    t0: Texture,
    unit: u32,
    handle: u32,
    t1: Texture,
    r: Result<Vec<GlCall>, AssetError>,
)
    requires
        t0.compiled() is None,
        t0.resources() == seq![Resource::Pending],
        Texture::bind_post(t0, unit, handle, t1, r),
    ensures
        r == Err::<Vec<GlCall>, AssetError>(AssetError::NotReady),
        t1.compiled() is None,
        t1.same_source(t0),
{
    reveal_with_fuel(first_error, 2);
}

/// Once compiled, `prepare` does nothing: it hands back no calls and keeps
/// the compiled state.
pub proof fn lemma_prepare_when_compiled_is_silent(
    t0: Texture,
    handle: u32,
    t1: Texture,
    r: Result<Vec<GlCall>, AssetError>,
)
    requires
        t0.compiled() is Some,
        Texture::prepare_post(t0, handle, t1, r),
    ensures
        r matches Ok(calls) && calls@.len() == 0,
        t1.compiled() == t0.compiled(),
{
}

/// Compiling happens once however often `prepare` is called: along a run of
/// `n` calls in a row on a texture whose images are ready, the first hands
/// back the one compile sequence, which creates one backend object, and every
/// later call hands back no calls and keeps the state the first one made.
pub proof fn lemma_prepare_run_compiles_once(
    ts: Seq<Texture>,
    hs: Seq<u32>,
    rs: Seq<Result<Vec<GlCall>, AssetError>>,
)
    requires
        ts.len() == rs.len() + 1,
        hs.len() == rs.len(),
        rs.len() >= 1,
        ts[0].compiled() is None,
        ts[0].load_error() is None,
        forall|i: int|
            0 <= i < rs.len() ==> #[trigger] Texture::prepare_post(ts[i], hs[i], ts[i + 1], rs[i]),
    ensures
        rs[0] matches Ok(c) && c@ == ts[0].compile_calls(hs[0]) && c@[0] == GlCall::CreateTexture(hs[0])
            && forall|k: int| 0 < k < c@.len() ==> !is_create(#[trigger] c@[k]),
        forall|i: int| 1 <= i < rs.len() ==> ((#[trigger] rs[i]) matches Ok(c) && c@.len() == 0),
        forall|i: int| 1 <= i < ts.len() ==> (#[trigger] ts[i]).compiled() == Some(ts[0].compiled_as(hs[0])),
    decreases rs.len(),
{
    lemma_compile_calls_shape(ts[0], hs[0]);
    assert(Texture::prepare_post(ts[0], hs[0], ts[1], rs[0]));
    if rs.len() > 1 {
        lemma_prepare_run_silent(ts, hs, rs, 1);
    }
}

/// From position `from` on, a run of `prepare` calls on a compiled texture
/// hands back no calls and keeps the compiled state.
proof fn lemma_prepare_run_silent(
    ts: Seq<Texture>,
    hs: Seq<u32>,
    rs: Seq<Result<Vec<GlCall>, AssetError>>,
    from: int,
)
    requires
        ts.len() == rs.len() + 1,
        hs.len() == rs.len(),
        1 <= from < rs.len(),
        ts[from].compiled() is Some,
        forall|i: int|
            0 <= i < rs.len() ==> #[trigger] Texture::prepare_post(ts[i], hs[i], ts[i + 1], rs[i]),
    ensures
        forall|i: int| from <= i < rs.len() ==> ((#[trigger] rs[i]) matches Ok(c) && c@.len() == 0),
        forall|i: int| from <= i < ts.len() ==> (#[trigger] ts[i]).compiled() == ts[from].compiled(),
    decreases rs.len() - from,
{
    assert(Texture::prepare_post(ts[from], hs[from], ts[from + 1], rs[from]));
    if from + 1 < rs.len() {
        lemma_prepare_run_silent(ts, hs, rs, from + 1);
    }
}

} // verus!
