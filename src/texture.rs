use vstd::prelude::*;

verus! {

/// Texture filter that an atlas page asks for.
#[derive(Clone, Copy, Debug, PartialEq, Eq, Structural)]
pub enum AtlasFilter {
    UnknownFilter,
    Nearest,
    Linear,
    Mipmap,
    MipmapNearestNearest,
    MipmapLinearNearest,
    MipmapNearestLinear,
    MipmapLinearLinear,
}

/// Texture wrap mode that an atlas page asks for.
#[derive(Clone, Copy, Debug, PartialEq, Eq, Structural)]
pub enum AtlasWrap {
    MirroredRepeat,
    ClampToEdge,
    Repeat,
    Unknown,
}

/// Pixel format that an atlas page asks for.
#[derive(Clone, Copy, Debug, PartialEq, Eq, Structural)]
pub enum AtlasFormat {
    UnknownFormat,
    Alpha,
    Intensity,
    LuminanceAlpha,
    RGB565,
    RGBA4444,
    RGB888,
    RGBA8888,
}

/// Sampling filter of a GPU texture.
#[derive(Clone, Copy, Debug, PartialEq, Eq, Structural)]
pub enum FilterMode {
    Linear,
    Nearest,
}

/// Wrap mode of a GPU texture.
#[derive(Clone, Copy, Debug, PartialEq, Eq, Structural)]
pub enum TextureWrap {
    Repeat,
    Mirror,
    Clamp,
}

/// The two pixel formats a texture is uploaded in: 8-bit RGB and 8-bit RGBA.
#[derive(Clone, Copy, Debug, PartialEq, Eq, Structural)]
pub enum PixelFormat {
    Rgb8,
    Rgba8,
}

pub open spec fn spec_convert_filter(f: AtlasFilter) -> Option<FilterMode> {
    match f {
        AtlasFilter::Linear => Some(FilterMode::Linear),
        AtlasFilter::Nearest => Some(FilterMode::Nearest),
        _ => None,
    }
}

pub open spec fn spec_convert_wrap(w: AtlasWrap) -> Option<TextureWrap> {
    match w {
        AtlasWrap::ClampToEdge => Some(TextureWrap::Clamp),
        AtlasWrap::MirroredRepeat => Some(TextureWrap::Mirror),
        AtlasWrap::Repeat => Some(TextureWrap::Repeat),
        AtlasWrap::Unknown => None,
    }
}

pub open spec fn spec_convert_format(f: AtlasFormat) -> Option<PixelFormat> {
    match f {
        AtlasFormat::RGB888 => Some(PixelFormat::Rgb8),
        AtlasFormat::RGBA8888 => Some(PixelFormat::Rgba8),
        _ => None,
    }
}

/// The GPU filter for an atlas filter; `None` for one the GPU side does not offer.
pub fn convert_filter(filter: AtlasFilter) -> (r: Option<FilterMode>)
    ensures
        r == spec_convert_filter(filter),
{
    match filter {
        AtlasFilter::Linear => Some(FilterMode::Linear),
        AtlasFilter::Nearest => Some(FilterMode::Nearest),
        _ => None,
    }
}

/// The GPU wrap mode for an atlas wrap mode; `None` for an unknown one.
pub fn convert_wrap(wrap: AtlasWrap) -> (r: Option<TextureWrap>)
    ensures
        r == spec_convert_wrap(wrap),
{
    match wrap {
        AtlasWrap::ClampToEdge => Some(TextureWrap::Clamp),
        AtlasWrap::MirroredRepeat => Some(TextureWrap::Mirror),
        AtlasWrap::Repeat => Some(TextureWrap::Repeat),
        AtlasWrap::Unknown => None,
    }
}

/// The upload format for an atlas format; `None` unless it is 8-bit RGB or RGBA.
pub fn convert_format(format: AtlasFormat) -> (r: Option<PixelFormat>)
    ensures
        r == spec_convert_format(format),
{
    match format {
        AtlasFormat::RGB888 => Some(PixelFormat::Rgb8),
        AtlasFormat::RGBA8888 => Some(PixelFormat::Rgba8),
        _ => None,
    }
}

/// Everything needed to decode and upload one atlas page's image.
pub struct TextureRequest {
    pub path: String,
    pub min_filter: FilterMode,
    pub mag_filter: FilterMode,
    pub x_wrap: TextureWrap,
    pub y_wrap: TextureWrap,
    pub format: PixelFormat,
}

pub open spec fn filter_or_linear(f: AtlasFilter) -> FilterMode {
    match spec_convert_filter(f) {
        Some(m) => m,
        None => FilterMode::Linear,
    }
}

pub open spec fn wrap_or_clamp(w: AtlasWrap) -> TextureWrap {
    match spec_convert_wrap(w) {
        Some(m) => m,
        None => TextureWrap::Clamp,
    }
}

pub open spec fn format_or_rgba(f: AtlasFormat) -> PixelFormat {
    match spec_convert_format(f) {
        Some(m) => m,
        None => PixelFormat::Rgba8,
    }
}

impl TextureRequest {
    /// The request for an atlas page's image. A setting with no GPU counterpart falls
    /// back to linear filtering, clamping, and RGBA.
    pub fn for_page(
        path: String,
        min_filter: AtlasFilter,
        mag_filter: AtlasFilter,
        u_wrap: AtlasWrap,
        v_wrap: AtlasWrap,
        format: AtlasFormat,
    ) -> (r: TextureRequest)
        ensures
            r.path@ == path@,
            r.min_filter == filter_or_linear(min_filter),
            r.mag_filter == filter_or_linear(mag_filter),
            r.x_wrap == wrap_or_clamp(u_wrap),
            r.y_wrap == wrap_or_clamp(v_wrap),
            r.format == format_or_rgba(format),
    {
        let min_filter = match convert_filter(min_filter) {
            Some(m) => m,
            None => FilterMode::Linear,
        };
        let mag_filter = match convert_filter(mag_filter) {
            Some(m) => m,
            None => FilterMode::Linear,
        };
        let x_wrap = match convert_wrap(u_wrap) {
            Some(w) => w,
            None => TextureWrap::Clamp,
        };
        let y_wrap = match convert_wrap(v_wrap) {
            Some(w) => w,
            None => TextureWrap::Clamp,
        };
        let format = match convert_format(format) {
            Some(f) => f,
            None => PixelFormat::Rgba8,
        };
        TextureRequest { path, min_filter, mag_filter, x_wrap, y_wrap, format }
    }

    pub fn duplicate(&self) -> (r: TextureRequest)
        ensures
            r == *self,
    {
        TextureRequest {
            path: self.path.clone(),
            min_filter: self.min_filter,
            mag_filter: self.mag_filter,
            x_wrap: self.x_wrap,
            y_wrap: self.y_wrap,
            format: self.format,
        }
    }
}

/// The state of one texture: waiting for its first use, uploaded, or given back after
/// its atlas page was unloaded.
pub enum SpineTexture<H> {
    NeedsToBeLoaded(TextureRequest),
    Loaded(H),
    Released,
}

/// What drawing with a texture takes: the uploaded handle, or a decode and upload first.
pub enum Resolution<H> {
    Ready(H),
    Load(TextureRequest),
}

pub open spec fn resolution_of<H>(slots: Seq<SpineTexture<H>>, i: int) -> Option<Resolution<H>> {
    if 0 <= i < slots.len() {
        match slots[i] {
            SpineTexture::NeedsToBeLoaded(req) => Some(Resolution::Load(req)),
            SpineTexture::Loaded(h) => Some(Resolution::Ready(h)),
            SpineTexture::Released => None,
        }
    } else {
        None
    }
}

/// No slot that holds an uploaded texture goes back to needing a load, and no slot is lost.
pub open spec fn never_unloads<H>(before: Seq<SpineTexture<H>>, after: Seq<SpineTexture<H>>) -> bool {
    &&& before.len() <= after.len()
    &&& forall|i: int| 0 <= i < before.len() && before[i] is Loaded ==> !(#[trigger] after[i] is NeedsToBeLoaded)
}

/// The textures of the atlas pages, each under the stable index it was registered with.
pub struct TextureCache<H> {
    slots: Vec<SpineTexture<H>>,
}

impl<H> View for TextureCache<H> {
    type V = Seq<SpineTexture<H>>;

    closed spec fn view(&self) -> Seq<SpineTexture<H>> {
        self.slots@
    }
}

impl<H: Copy> TextureCache<H> {
    pub fn new() -> (r: TextureCache<H>)
        ensures
            r@ == Seq::<SpineTexture<H>>::empty(),
    {
        TextureCache { slots: Vec::new() }
    }

    pub fn len(&self) -> (r: usize)
        ensures
            r == self@.len(),
    {
        self.slots.len()
    }

    /// Gives an atlas page's texture a slot, to be loaded on first use; returns its index.
    pub fn register(&mut self, request: TextureRequest) -> (r: usize)
        requires
            old(self)@.len() < usize::MAX,
        ensures
            r == old(self)@.len(),
            final(self)@ == old(self)@.push(SpineTexture::NeedsToBeLoaded(request)),
            never_unloads(old(self)@, final(self)@),
    {
        let r = self.slots.len();
        self.slots.push(SpineTexture::NeedsToBeLoaded(request));
        r
    }

    /// What drawing with slot `slot` takes: its handle once uploaded, else the request to
    /// load it; `None` for a released or unknown slot. The cache is left as it is.
    pub fn resolve(&self, slot: usize) -> (r: Option<Resolution<H>>)
        ensures
            r == resolution_of(self@, slot as int),
    {
        if slot >= self.slots.len() {
            return None;
        }
        match &self.slots[slot] {
            SpineTexture::NeedsToBeLoaded(req) => Some(Resolution::Load(req.duplicate())),
            SpineTexture::Loaded(h) => Some(Resolution::Ready(*h)),
            SpineTexture::Released => None,
        }
    }

    /// Records that the texture of slot `slot` was uploaded as `handle`.
    pub fn complete_load(&mut self, slot: usize, handle: H)
        requires
            slot < old(self)@.len(),
            old(self)@[slot as int] is NeedsToBeLoaded,
        ensures
            final(self)@ == old(self)@.update(slot as int, SpineTexture::Loaded(handle)),
            never_unloads(old(self)@, final(self)@),
    {
        self.slots.set(slot, SpineTexture::Loaded(handle));
    }

    /// Gives back slot `slot` when its atlas page is unloaded, returning the uploaded
    /// handle, if there was one, for deletion.
    pub fn release(&mut self, slot: usize) -> (r: Option<H>)
        ensures
            r == (match resolution_of(old(self)@, slot as int) {
                Some(Resolution::Ready(h)) => Some(h),
                _ => None::<H>,
            }),
            final(self)@ == (if slot < old(self)@.len() {
                old(self)@.update(slot as int, SpineTexture::Released)
            } else {
                old(self)@
            }),
            never_unloads(old(self)@, final(self)@),
    {
        if slot >= self.slots.len() {
            return None;
        }
        let r = match &self.slots[slot] {
            SpineTexture::Loaded(h) => Some(*h),
            _ => None,
        };
        self.slots.set(slot, SpineTexture::Released);
        r
    }
}

/// A slot is decoded at most once: resolving it before the upload asks for a load, and
/// every resolution after the upload gives the uploaded handle without asking again.
pub proof fn lemma_decode_once<H>(slots: Seq<SpineTexture<H>>, i: int, handle: H)
    requires
        0 <= i < slots.len(),
        slots[i] is NeedsToBeLoaded,
    ensures
        resolution_of(slots, i) matches Some(Resolution::Load(_)),
        resolution_of(slots.update(i, SpineTexture::Loaded(handle)), i) == Some(Resolution::Ready(handle)),
        forall|j: int|
            j != i ==> resolution_of(slots.update(i, SpineTexture::Loaded(handle)), j) == #[trigger] resolution_of(slots, j),
{
}

/// Handles of GPU textures waiting to be deleted, oldest first.
pub struct DeleteQueue<H> {
    items: Vec<H>,
}

impl<H> View for DeleteQueue<H> {
    type V = Seq<H>;

    closed spec fn view(&self) -> Seq<H> {
        self.items@
    }
}

/// The queue after appending `hs` to `q` one by one.
pub open spec fn enqueued<H>(q: Seq<H>, hs: Seq<H>) -> Seq<H>
    decreases hs.len(),
{
    if hs.len() == 0 {
        q
    } else {
        enqueued(q, hs.drop_last()).push(hs.last())
    }
}

impl<H> DeleteQueue<H> {
    pub fn new() -> (r: DeleteQueue<H>)
        ensures
            r@ == Seq::<H>::empty(),
    {
        DeleteQueue { items: Vec::new() }
    }

    pub fn len(&self) -> (r: usize)
        ensures
            r == self@.len(),
    {
        self.items.len()
    }

    pub fn is_empty(&self) -> (r: bool)
        ensures
            r == (self@.len() == 0),
    {
        self.items.len() == 0
    }

    /// Appends a handle to delete before the next frame is drawn.
    pub fn enqueue(&mut self, handle: H)
        ensures
            final(self)@ == old(self)@.push(handle),
    {
        self.items.push(handle);
    }

    /// Takes every queued handle, oldest first, leaving the queue empty.
    pub fn drain(&mut self) -> (r: Vec<H>)
        ensures
            r@ == old(self)@,
            final(self)@ == Seq::<H>::empty(),
    {
        let mut taken: Vec<H> = Vec::new();
        std::mem::swap(&mut taken, &mut self.items);
        taken
    }
}

/// Draining a queue that was empty before some handles were enqueued gives those
/// handles back in the order they were enqueued.
pub proof fn lemma_drain_fifo<H>(hs: Seq<H>)
    ensures
        enqueued(Seq::<H>::empty(), hs) == hs,
    decreases hs.len(),
{
    if hs.len() > 0 {
        lemma_drain_fifo(hs.drop_last());
        assert(hs.drop_last().push(hs.last()) =~= hs);
    }
}

} // verus!
