use vstd::prelude::*;

verus! {

/// One frame of a cursor image, as an xcursor file describes it.
#[derive(Debug)]
pub struct CursorImage {
    /// The nominal size of the image.
    pub size: u32,
    /// The actual width of the image.
    pub width: u32,
    /// The actual height of the image.
    pub height: u32,
    /// The X coordinate of the hotspot pixel.
    pub xhot: u32,
    /// The Y coordinate of the hotspot pixel.
    pub yhot: u32,
    /// How long (in milliseconds) the frame is shown before the next one.
    pub delay: u32,
    /// The pixels, in RGBA byte order.
    pub pixels_rgba: Vec<u8>,
    /// The pixels, in ARGB byte order.
    pub pixels_argb: Vec<u8>,
}

/// The mathematical value of a cursor image.
pub struct CursorImageView {
    pub size: u32,
    pub width: u32,
    pub height: u32,
    pub xhot: u32,
    pub yhot: u32,
    pub delay: u32,
    pub pixels_rgba: Seq<u8>,
    pub pixels_argb: Seq<u8>,
}

impl View for CursorImage {
    type V = CursorImageView;

    open spec fn view(&self) -> CursorImageView {
        CursorImageView {
            size: self.size,
            width: self.width,
            height: self.height,
            xhot: self.xhot,
            yhot: self.yhot,
            delay: self.delay,
            pixels_rgba: self.pixels_rgba@,
            pixels_argb: self.pixels_argb@,
        }
    }
}

/// The views of a sequence of images.
pub open spec fn views(images: Seq<CursorImage>) -> Seq<CursorImageView> {
    images.map_values(|i: CursorImage| i@)
}

fn copy_bytes(v: &Vec<u8>) -> (r: Vec<u8>)
    ensures
        r@ == v@,
{
    let mut r: Vec<u8> = Vec::new();
    let mut i: usize = 0;
    while i < v.len()
        invariant
            i <= v@.len(),
            r@ == v@.take(i as int),
        decreases v@.len() - i,
    {
        r.push(v[i]);
        i = i + 1;
        assert(r@ =~= v@.take(i as int));
    }
    assert(v@.take(v@.len() as int) =~= v@);
    r
}

impl CursorImage {
    /// A copy of the image.
    pub fn duplicate(&self) -> (r: CursorImage)
        ensures
            r@ == self@,
    {
        CursorImage {
            size: self.size,
            width: self.width,
            height: self.height,
            xhot: self.xhot,
            yhot: self.yhot,
            delay: self.delay,
            pixels_rgba: copy_bytes(&self.pixels_rgba),
            pixels_argb: copy_bytes(&self.pixels_argb),
        }
    }
}

fn same_bytes(a: &Vec<u8>, b: &Vec<u8>) -> (r: bool)
    ensures
        r == (a@ == b@),
{
    if a.len() != b.len() {
        return false;
    }
    let mut i: usize = 0;
    while i < a.len()
        invariant
            a@.len() == b@.len(),
            i <= a@.len(),
            forall|k: int| 0 <= k < i ==> a@[k] == b@[k],
        decreases a@.len() - i,
    {
        if a[i] != b[i] {
            return false;
        }
        i = i + 1;
    }
    assert(a@ =~= b@);
    true
}

impl CursorImage {
    /// Whether the two images are the same in every field, pixels included.
    pub fn same_as(&self, other: &CursorImage) -> (r: bool)
        ensures
            r == (self@ == other@),
    {
        self.size == other.size && self.width == other.width && self.height == other.height
            && self.xhot == other.xhot && self.yhot == other.yhot && self.delay == other.delay
            && same_bytes(&self.pixels_rgba, &other.pixels_rgba) && same_bytes(
            &self.pixels_argb,
            &other.pixels_argb,
        )
    }
}

/// The texture stored for `frame` in `entries`: that of the first entry
/// whose frame is `frame`, if there is one.
pub open spec fn cached_texture<T>(entries: Seq<(CursorImageView, T)>, frame: CursorImageView) -> Option<T>
    decreases entries.len(),
{
    if entries.len() == 0 {
        None
    } else if entries[0].0 == frame {
        Some(entries[0].1)
    } else {
        cached_texture(entries.drop_first(), frame)
    }
}

/// Whether no frame occurs twice among the entries.
pub open spec fn frames_distinct<T>(entries: Seq<(CursorImageView, T)>) -> bool {
    forall|i: int, j: int| 0 <= i < j < entries.len() ==> (#[trigger] entries[i]).0 != (#[trigger] entries[j]).0
}

/// No texture is found for a frame exactly when no entry holds that frame.
proof fn lemma_cached_none<T>(entries: Seq<(CursorImageView, T)>, frame: CursorImageView)
    ensures
        cached_texture(entries, frame) is None <==> forall|i: int| 0 <= i < entries.len() ==> (#[trigger] entries[i]).0 != frame,
    decreases entries.len(),
{
    if entries.len() > 0 {
        let rest = entries.drop_first();
        lemma_cached_none(rest, frame);
        assert forall|i: int| 0 < i < entries.len() implies entries[i] == rest[i - 1] by {}
        if forall|i: int| 0 <= i < entries.len() ==> (#[trigger] entries[i]).0 != frame {
            assert forall|i: int| 0 <= i < rest.len() implies (#[trigger] rest[i]).0 != frame by {
                assert(rest[i] == entries[i + 1]);
            }
        }
        if cached_texture(entries, frame) is None {
            assert forall|i: int| 0 <= i < entries.len() implies (#[trigger] entries[i]).0 != frame by {
                if i > 0 {
                    assert(rest[i - 1] == entries[i]);
                }
            }
        }
    }
}

/// The textures made from cursor frames, so that each frame is uploaded to
/// the GPU once and found again by its content. No frame is stored twice.
#[derive(Debug)]
pub struct FrameTextures<T> {
    entries: Vec<(CursorImage, T)>,
}

impl<T> FrameTextures<T> {
    /// The stored frames with their textures, in the order they were added.
    pub closed spec fn entries(&self) -> Seq<(CursorImageView, T)> {
        self.entries@.map_values(|e: (CursorImage, T)| (e.0@, e.1))
    }

    /// Every frame is stored at most once.
    #[verifier::type_invariant]
    spec fn no_frame_twice(&self) -> bool {
        frames_distinct(self.entries())
    }

    /// No texture is stored.
    pub fn new() -> (r: FrameTextures<T>)
        ensures
            r.entries() == Seq::<(CursorImageView, T)>::empty(),
    {
        let r = FrameTextures { entries: Vec::new() };
        assert(r.entries() =~= Seq::<(CursorImageView, T)>::empty());
        r
    }

    /// The texture stored for `frame`, if any.
    pub fn lookup(&self, frame: &CursorImage) -> (r: Option<&T>)
        ensures
            match r {
                Some(t) => cached_texture(self.entries(), frame@) == Some(*t),
                None => cached_texture(self.entries(), frame@) is None,
            },
    {
        let ghost e = self.entries();
        let mut i: usize = 0;
        assert(e.skip(0) =~= e);
        while i < self.entries.len()
            invariant
                e == self.entries(),
                i <= self.entries@.len(),
                cached_texture(e, frame@) == cached_texture(e.skip(i as int), frame@),
            decreases self.entries@.len() - i,
        {
            assert(e.skip(i as int).drop_first() =~= e.skip(i + 1));
            assert(e.skip(i as int)[0] == e[i as int]);
            if self.entries[i].0.same_as(frame) {
                return Some(&self.entries[i].1);
            }
            i = i + 1;
        }
        assert(e.skip(i as int) =~= Seq::<(CursorImageView, T)>::empty());
        None
    }

    /// Stores `texture` as the texture of `frame`, which has none yet.
    pub fn insert(&mut self, frame: CursorImage, texture: T)
        requires
            cached_texture(old(self).entries(), frame@) is None,
        ensures
            final(self).entries() == old(self).entries().push((frame@, texture)),
            frames_distinct(final(self).entries()),
    {
        proof {
            use_type_invariant(&*self);
            lemma_cached_none(self.entries(), frame@);
        }
        let ghost before = self.entries();
        let mut entries: Vec<(CursorImage, T)> = Vec::new();
        std::mem::swap(&mut entries, &mut self.entries);
        let ghost fv = frame@;
        entries.push((frame, texture));
        let ghost after = entries@.map_values(|e: (CursorImage, T)| (e.0@, e.1));
        assert(after =~= before.push((fv, texture)));
        assert forall|i: int, j: int| 0 <= i < j < after.len() implies (#[trigger] after[i]).0 != (#[trigger] after[j]).0 by {
            if j < before.len() {
                assert(after[i] == before[i] && after[j] == before[j]);
            } else {
                assert(after[i] == before[i]);
            }
        }
        self.entries = entries;
    }

    /// The number of stored textures; no frame is stored twice.
    pub fn len(&self) -> (n: usize)
        ensures
            n == self.entries().len(),
            frames_distinct(self.entries()),
    {
        proof {
            use_type_invariant(self);
        }
        self.entries.len()
    }

    /// The texture of the entry at `index`.
    pub fn texture(&self, index: usize) -> (r: &T)
        requires
            index < self.entries().len(),
        ensures
            *r == self.entries()[index as int].1,
    {
        &self.entries[index].1
    }

    /// The index of the texture of `frame`: the stored one when there is
    /// one, and otherwise a texture made by `upload`, which is stored for the
    /// frame at the end. A texture is made only for a frame that has none, so
    /// no frame is stored twice.
    pub fn lookup_or_insert<F: FnOnce() -> T>(&mut self, frame: CursorImage, upload: F) -> (index: usize)
        requires
            call_requires(upload, ()),
        ensures
            index < final(self).entries().len(),
            final(self).entries()[index as int].0 == frame@,
            cached_texture(final(self).entries(), frame@) == Some(final(self).entries()[index as int].1),
            cached_texture(old(self).entries(), frame@) is Some ==> final(self).entries() == old(self).entries(),
            cached_texture(old(self).entries(), frame@) is None ==> index == old(self).entries().len() && exists|t: T|
                call_ensures(upload, (), t) && final(self).entries() == old(self).entries().push((frame@, t)),
            frames_distinct(final(self).entries()),
    {
        proof {
            use_type_invariant(&*self);
        }
        let ghost e = self.entries();
        let mut i: usize = 0;
        assert(e.skip(0) =~= e);
        while i < self.entries.len()
            invariant
                e == self.entries(),
                i <= self.entries@.len(),
                cached_texture(e, frame@) == cached_texture(e.skip(i as int), frame@),
                forall|k: int| 0 <= k < i ==> (#[trigger] e[k]).0 != frame@,
                frames_distinct(e),
            decreases self.entries@.len() - i,
        {
            assert(e.skip(i as int).drop_first() =~= e.skip(i + 1));
            assert(e.skip(i as int)[0] == e[i as int]);
            if self.entries[i].0.same_as(&frame) {
                return i;
            }
            i = i + 1;
        }
        assert(e.skip(i as int) =~= Seq::<(CursorImageView, T)>::empty());
        let texture = upload();
        let index = self.entries.len();
        self.insert(frame, texture);
        proof {
            lemma_texture_after_insert(e, frame@, texture, frame@);
        }
        index
    }
}

/// What a texture store gives back after a frame was added: the texture
/// just stored, for a frame that had none; for every other frame, what it
/// gave before.
pub proof fn lemma_texture_after_insert<T>(entries: Seq<(CursorImageView, T)>, frame: CursorImageView, texture: T, other: CursorImageView)
    ensures
        cached_texture(entries, frame) is None ==> cached_texture(entries.push((frame, texture)), frame) == Some(texture),
        other != frame ==> cached_texture(entries.push((frame, texture)), other) == cached_texture(entries, other),
        cached_texture(entries, other) is Some ==> cached_texture(entries.push((frame, texture)), other) == cached_texture(entries, other),
    decreases entries.len(),
{
    let pushed = entries.push((frame, texture));
    if entries.len() == 0 {
        assert(pushed.drop_first() =~= Seq::<(CursorImageView, T)>::empty());
    } else {
        assert(pushed.drop_first() =~= entries.drop_first().push((frame, texture)));
        assert(pushed[0] == entries[0]);
        lemma_texture_after_insert(entries.drop_first(), frame, texture, other);
    }
}

/// What the xcursor parser reads from the bytes of a cursor file: its
/// images, in the order of the file's table of contents, or `None` when the
/// bytes are not a well-formed xcursor file.
pub uninterp spec fn xcursor_images(content: Seq<u8>) -> Option<Seq<CursorImageView>>;

/// Whether an image has the shape that the xcursor parser checks before it
/// accepts one: a width and height between 1 and 0x7fff, a hotspot inside the
/// image, and four bytes of pixel data per pixel.
pub open spec fn well_formed_image(i: CursorImageView) -> bool {
    &&& 0 < i.width <= 0x7fff
    &&& 0 < i.height <= 0x7fff
    &&& i.xhot <= i.width
    &&& i.yhot <= i.height
    &&& i.pixels_rgba.len() == 4 * i.width * i.height
}

/// Calls `xcursor::parser::parse_xcursor` and converts each `xcursor::parser::Image`
/// field by field into a `CursorImage`. The result is named by `xcursor_images`
/// (it depends on the bytes alone); of each image returned, the parser's checks
/// (see `well_formed_image`) hold. The parser allocates buffers whose sizes the
/// file gives; what happens when memory runs out on such a file is left unsaid.
#[verifier::external_body]
fn parse_xcursor(content: &[u8]) -> (r: Option<Vec<CursorImage>>)
    ensures
        match r {
            Some(v) => xcursor_images(content@) == Some(views(v@)),
            None => xcursor_images(content@) is None,
        },
        r matches Some(v) ==> forall|i: int| 0 <= i < v@.len() ==> well_formed_image(#[trigger] v@[i]@),
{
    xcursor::parser::parse_xcursor(content).map(|images| {
        images.into_iter().map(|i| CursorImage {
            size: i.size,
            width: i.width,
            height: i.height,
            xhot: i.xhot,
            yhot: i.yhot,
            delay: i.delay,
            pixels_rgba: i.pixels_rgba,
            pixels_argb: i.pixels_argb,
        }).collect()
    })
}

/// The image shown when no cursor theme provides one: a 64x64 frame of
/// nominal size 32 with its hotspot at (1, 1).
pub open spec fn fallback_image(pixels: Seq<u8>) -> CursorImageView {
    CursorImageView {
        size: 32,
        width: 64,
        height: 64,
        xhot: 1,
        yhot: 1,
        delay: 1,
        pixels_rgba: pixels,
        pixels_argb: Seq::empty(),
    }
}

/// The frames of a cursor icon: those of its xcursor file when the file
/// could be read and parsed, else the single fallback frame.
pub open spec fn icon_frames(content: Option<Seq<u8>>, fallback_pixels: Seq<u8>) -> Seq<CursorImageView> {
    match content {
        Some(c) => match xcursor_images(c) {
            Some(images) => images,
            None => seq![fallback_image(fallback_pixels)],
        },
        None => seq![fallback_image(fallback_pixels)],
    }
}

/// The fallback cursor frame built from the built-in pixel data.
pub fn fallback_frames(pixels: &[u8]) -> (r: Vec<CursorImage>)
    ensures
        views(r@) == seq![fallback_image(pixels@)],
{
    let mut rgba: Vec<u8> = Vec::new();
    let mut i: usize = 0;
    while i < pixels.len()
        invariant
            i <= pixels@.len(),
            rgba@ == pixels@.take(i as int),
        decreases pixels@.len() - i,
    {
        rgba.push(pixels[i]);
        i = i + 1;
        assert(rgba@ =~= pixels@.take(i as int));
    }
    assert(pixels@.take(pixels@.len() as int) =~= pixels@);
    let image = CursorImage {
        size: 32,
        width: 64,
        height: 64,
        xhot: 1,
        yhot: 1,
        delay: 1,
        pixels_rgba: rgba,
        pixels_argb: Vec::new(),
    };
    let mut r: Vec<CursorImage> = Vec::new();
    r.push(image);
    assert(views(r@) =~= seq![fallback_image(pixels@)]);
    r
}

/// The frames of a cursor icon given what the parser made of its file:
/// the parsed images, or the fallback frame built from `fallback_pixels`
/// when there was no file or it did not parse (`None`).
pub fn frames_or_fallback(parsed: Option<Vec<CursorImage>>, fallback_pixels: &[u8]) -> (r: Vec<CursorImage>)
    ensures
        views(r@) == match parsed {
            Some(images) => views(images@),
            None => seq![fallback_image(fallback_pixels@)],
        },
{
    match parsed {
        Some(images) => images,
        None => fallback_frames(fallback_pixels),
    }
}

/// The frames of a cursor icon. `content` holds the bytes of the icon's
/// xcursor file, or `None` when the theme has no such file or it could not
/// be read; when it is missing or does not parse, the fallback frame built
/// from `fallback_pixels` is used.
pub fn load_frames(content: Option<&[u8]>, fallback_pixels: &[u8]) -> (r: Vec<CursorImage>)
    ensures
        views(r@) == icon_frames(
            match content {
                Some(c) => Some(c@),
                None => None,
            },
            fallback_pixels@,
        ),
{
    match content {
        Some(c) => frames_or_fallback(parse_xcursor(c), fallback_pixels),
        None => frames_or_fallback(None, fallback_pixels),
    }
}

/// `x` read as a two's complement `i32`.
pub open spec fn wrap_i32(x: u32) -> int {
    if x <= i32::MAX { x as int } else { x - 0x1_0000_0000 }
}

/// The distance between the nominal size `size` and that of an image, as the
/// compositor measures it: the absolute difference of the two sizes read as
/// `i32`.
pub open spec fn size_distance(size: u32, image_size: u32) -> int {
    let d = wrap_i32(size) - wrap_i32(image_size);
    if d >= 0 { d } else { -d }
}

/// Whether the distance to every image can be computed in `i32`.
pub open spec fn distances_fit(size: u32, images: Seq<CursorImageView>) -> bool {
    forall|i: int| 0 <= i < images.len() ==> i32::MIN < wrap_i32(size) - wrap_i32(#[trigger] images[i].size) <= i32::MAX
}

/// Index of the first image whose nominal size is nearest to `size`.
pub open spec fn is_first_nearest(size: u32, images: Seq<CursorImageView>, m: int) -> bool {
    &&& 0 <= m < images.len()
    &&& forall|i: int| 0 <= i < m ==> size_distance(size, #[trigger] images[i].size) > size_distance(size, images[m].size)
    &&& forall|i: int| m < i < images.len() ==> size_distance(size, #[trigger] images[i].size) >= size_distance(size, images[m].size)
}

/// The distance between two nominal sizes is their absolute difference:
/// never negative, equal to one of the two differences, and the same in
/// both directions.
pub proof fn lemma_size_distance_is_absolute(size: u32, image_size: u32)
    ensures
        size_distance(size, image_size) >= 0,
        size_distance(size, image_size) == wrap_i32(size) - wrap_i32(image_size) || size_distance(size, image_size)
            == wrap_i32(image_size) - wrap_i32(size),
        size_distance(size, image_size) == size_distance(image_size, size),
{
}

/// The image that `nearest_images` picks has a nominal size whose absolute
/// difference to `size` is no larger than that of any other image, and
/// strictly smaller than that of every image before it.
pub proof fn lemma_nearest_is_closest(size: u32, images: Seq<CursorImageView>, m: int, i: int)
    requires
        is_first_nearest(size, images, m),
        0 <= i < images.len(),
    ensures
        ({
            let dm = wrap_i32(size) - wrap_i32(images[m].size);
            let di = wrap_i32(size) - wrap_i32(images[i].size);
            let am = if dm >= 0 { dm } else { -dm };
            let ai = if di >= 0 { di } else { -di };
            &&& am <= ai
            &&& i < m ==> am < ai
        }),
{
    lemma_size_distance_is_absolute(size, images[m].size);
    lemma_size_distance_is_absolute(size, images[i].size);
    if i != m {
        assert(size_distance(size, images[i].size) >= size_distance(size, images[m].size));
    }
}

/// The images that have the width `w` and the height `h`, in their order.
pub open spec fn with_dimensions(images: Seq<CursorImageView>, w: u32, h: u32) -> Seq<CursorImageView>
    decreases images.len(),
{
    if images.len() == 0 {
        images
    } else {
        let rest = with_dimensions(images.drop_last(), w, h);
        if images.last().width == w && images.last().height == h {
            rest.push(images.last())
        } else {
            rest
        }
    }
}

fn as_i32(x: u32) -> (r: i32)
    ensures
        r == wrap_i32(x),
{
    if x <= 0x7fff_ffff {
        x as i32
    } else {
        let low: u32 = x - 0x8000_0000;
        (low as i32) + i32::MIN
    }
}

fn distance(size: u32, image_size: u32) -> (r: i32)
    requires
        i32::MIN < wrap_i32(size) - wrap_i32(image_size) <= i32::MAX,
    ensures
        r == size_distance(size, image_size),
{
    let d = as_i32(size) - as_i32(image_size);
    if d >= 0 { d } else { -d }
}

proof fn lemma_first_nearest_unique(size: u32, images: Seq<CursorImageView>, m1: int, m2: int)
    requires
        is_first_nearest(size, images, m1),
        is_first_nearest(size, images, m2),
    ensures
        m1 == m2,
{
    if m1 < m2 {
        assert(size_distance(size, images[m1].size) > size_distance(size, images[m2].size));
    } else if m2 < m1 {
        assert(size_distance(size, images[m2].size) > size_distance(size, images[m1].size));
    }
}

/// The frames of the animation to show for the nominal cursor size `size`:
/// the first image whose nominal size is nearest to `size` is found, and all
/// images of the same width and height are kept, in their order.
pub fn nearest_images(size: u32, images: &Vec<CursorImage>) -> (r: Vec<CursorImage>)
    requires
        images@.len() > 0,
        distances_fit(size, views(images@)),
    ensures
        exists|m: int|
            is_first_nearest(size, views(images@), m) && views(r@) == with_dimensions(
                views(images@),
                #[trigger] views(images@)[m].width,
                views(images@)[m].height,
            ),
{
    let ghost v = views(images@);
    let mut best: usize = 0;
    assert(v[0].size == images@[0].size);
    let mut best_distance = distance(size, images[0].size);
    let mut i: usize = 1;
    while i < images.len()
        invariant
            v == views(images@),
            distances_fit(size, v),
            1 <= i <= images@.len(),
            best < i,
            best_distance == size_distance(size, v[best as int].size),
            forall|k: int| 0 <= k < best ==> size_distance(size, #[trigger] v[k].size) > best_distance,
            forall|k: int| best < k < i ==> size_distance(size, #[trigger] v[k].size) >= best_distance,
        decreases images@.len() - i,
    {
        assert(v[i as int].size == images@[i as int].size);
        let d = distance(size, images[i].size);
        if d < best_distance {
            best = i;
            best_distance = d;
        }
        i = i + 1;
    }
    let w = images[best].width;
    let h = images[best].height;
    let mut r: Vec<CursorImage> = Vec::new();
    let mut j: usize = 0;
    while j < images.len()
        invariant
            v == views(images@),
            j <= images@.len(),
            w == v[best as int].width,
            h == v[best as int].height,
            views(r@) == with_dimensions(v.take(j as int), w, h),
        decreases images@.len() - j,
    {
        assert(v.take((j + 1) as int).drop_last() =~= v.take(j as int));
        assert(v.take((j + 1) as int).last() == images@[j as int]@);
        if images[j].width == w && images[j].height == h {
            let ghost before = r@;
            r.push(images[j].duplicate());
            assert(views(r@) =~= views(before).push(images@[j as int]@));
        }
        j = j + 1;
    }
    assert(v.take(images@.len() as int) =~= v);
    assert(is_first_nearest(size, v, best as int));
    r
}

/// The length of a full round of the animation: the sum of the frames' delays.
pub open spec fn total_delay_of(images: Seq<CursorImageView>) -> int
    decreases images.len(),
{
    if images.len() == 0 {
        0
    } else {
        images[0].delay + total_delay_of(images.drop_first())
    }
}

/// The sum of the frames' delays.
pub fn total_delay(images: &Vec<CursorImage>) -> (r: u32)
    requires
        total_delay_of(views(images@)) <= u32::MAX,
    ensures
        r == total_delay_of(views(images@)),
{
    let ghost v = views(images@);
    let mut acc: u32 = 0;
    let mut i: usize = 0;
    assert(v.skip(0) =~= v);
    while i < images.len()
        invariant
            v == views(images@),
            i <= images@.len(),
            acc + total_delay_of(v.skip(i as int)) == total_delay_of(v),
            total_delay_of(v) <= u32::MAX,
        decreases images@.len() - i,
    {
        assert(v.skip(i as int).drop_first() =~= v.skip(i + 1));
        assert(v.skip(i as int)[0] == images@[i as int]@);
        proof {
            lemma_total_delay_nonnegative(v.skip(i + 1));
        }
        acc = acc + images[i].delay;
        i = i + 1;
    }
    assert(v.skip(images@.len() as int) =~= Seq::<CursorImageView>::empty());
    acc
}

proof fn lemma_total_delay_nonnegative(images: Seq<CursorImageView>)
    ensures
        total_delay_of(images) >= 0,
    decreases images.len(),
{
    if images.len() > 0 {
        lemma_total_delay_nonnegative(images.drop_first());
    }
}

/// The frame that is shown `millis` milliseconds into a round of the
/// animation: the first frame whose delay is not used up by `millis`.
pub open spec fn frame_index(millis: int, images: Seq<CursorImageView>) -> int
    decreases images.len(),
{
    if images.len() == 0 {
        0
    } else if millis < images[0].delay {
        0
    } else {
        1 + frame_index(millis - images[0].delay, images.drop_first())
    }
}

proof fn lemma_frame_index_in_range(millis: int, images: Seq<CursorImageView>)
    requires
        0 <= millis < total_delay_of(images),
    ensures
        0 <= frame_index(millis, images) < images.len(),
    decreases images.len(),
{
    if images.len() > 0 && millis >= images[0].delay {
        lemma_frame_index_in_range(millis - images[0].delay, images.drop_first());
    }
}

/// The frame shown `millis` milliseconds into a round of the animation.
pub fn frame(millis: u32, images: &Vec<CursorImage>) -> (r: CursorImage)
    requires
        millis < total_delay_of(views(images@)),
    ensures
        0 <= frame_index(millis as int, views(images@)) < images@.len(),
        r@ == views(images@)[frame_index(millis as int, views(images@))],
{
    let ghost v = views(images@);
    proof {
        lemma_frame_index_in_range(millis as int, v);
    }
    let mut rest = millis;
    let mut i: usize = 0;
    assert(v.skip(0) =~= v);
    while i < images.len()
        invariant
            v == views(images@),
            i <= images@.len(),
            0 <= rest < total_delay_of(v.skip(i as int)),
            frame_index(millis as int, v) == i + frame_index(rest as int, v.skip(i as int)),
        decreases images@.len() - i,
    {
        assert(v.skip(i as int).drop_first() =~= v.skip(i + 1));
        assert(v.skip(i as int)[0] == images@[i as int]@);
        if rest < images[i].delay {
            return images[i].duplicate();
        }
        rest = rest - images[i].delay;
        i = i + 1;
    }
    assert(v.skip(images@.len() as int) =~= Seq::<CursorImageView>::empty());
    assert(false);
    images[0].duplicate()
}

/// The position in the animation round at time `time_ms`.
pub open spec fn animation_millis(time_ms: u128, total: u32) -> int {
    (time_ms % (total as u128)) as int
}

/// The frames of an animated cursor together with the length of one round.
pub struct CursorAnimation {
    frames: Vec<CursorImage>,
    total_delay: u32,
}

impl CursorAnimation {
    /// The frames, in the order they are shown.
    pub closed spec fn frames(&self) -> Seq<CursorImageView> {
        views(self.frames@)
    }

    /// The length of one round of the animation.
    pub closed spec fn spec_total_delay(&self) -> u32 {
        self.total_delay
    }

    /// The stored length of a round is the sum of the frames' delays.
    pub closed spec fn wf(&self) -> bool {
        self.total_delay == total_delay_of(views(self.frames@))
    }

    /// Whether `size` can be compared with every image, and the delays of the
    /// images that `nearest_images` keeps for it add up within `u32`.
    pub open spec fn selectable(size: u32, images: Seq<CursorImageView>) -> bool {
        &&& images.len() > 0
        &&& distances_fit(size, images)
        &&& forall|m: int|
            is_first_nearest(size, images, m) ==> total_delay_of(
                with_dimensions(images, #[trigger] images[m].width, images[m].height),
            ) <= u32::MAX
    }

    /// Whether `select` can be called with `size` and `images`.
    pub fn can_select(size: u32, images: &Vec<CursorImage>) -> (b: bool)
        ensures
            b == CursorAnimation::selectable(size, views(images@)),
    {
        let ghost v = views(images@);
        if images.len() == 0 {
            return false;
        }
        let mut i: usize = 0;
        while i < images.len()
            invariant
                v == views(images@),
                i <= images@.len(),
                forall|k: int| 0 <= k < i ==> i32::MIN < wrap_i32(size) - wrap_i32(#[trigger] v[k].size) <= i32::MAX,
            decreases images@.len() - i,
        {
            assert(v[i as int].size == images@[i as int].size);
            let d: i64 = as_i32(size) as i64 - as_i32(images[i].size) as i64;
            if !(d > i32::MIN as i64 && d <= i32::MAX as i64) {
                return false;
            }
            i = i + 1;
        }
        assert(distances_fit(size, v));
        let near = nearest_images(size, images);
        let ghost m = choose|m: int|
            is_first_nearest(size, v, m) && views(near@) == with_dimensions(v, #[trigger] v[m].width, v[m].height);
        proof {
            assert forall|m2: int| is_first_nearest(size, v, m2) implies m2 == m by {
                lemma_first_nearest_unique(size, v, m, m2);
            }
        }
        let ghost w = views(near@);
        let mut acc: u64 = 0;
        let mut j: usize = 0;
        assert(w.skip(0) =~= w);
        while j < near.len()
            invariant
                v == views(images@),
                w == views(near@),
                is_first_nearest(size, v, m),
                w == with_dimensions(v, v[m].width, v[m].height),
                j <= near@.len(),
                acc <= u32::MAX,
                acc + total_delay_of(w.skip(j as int)) == total_delay_of(w),
            decreases near@.len() - j,
        {
            assert(w.skip(j as int).drop_first() =~= w.skip(j + 1));
            assert(w.skip(j as int)[0] == near@[j as int]@);
            proof {
                lemma_total_delay_nonnegative(w.skip(j + 1));
            }
            assert(total_delay_of(w.skip(j as int)) == near@[j as int].delay + total_delay_of(w.skip(j + 1)));
            acc = acc + near[j].delay as u64;
            assert(total_delay_of(w) == acc + total_delay_of(w.skip(j + 1)));
            if acc > 0xffff_ffff {
                assert(total_delay_of(w) > u32::MAX);
                assert(is_first_nearest(size, v, m));
                assert(total_delay_of(with_dimensions(v, v[m].width, v[m].height)) > u32::MAX);
                assert(!CursorAnimation::selectable(size, v));
                return false;
            }
            j = j + 1;
        }
        assert(w.skip(near@.len() as int) =~= Seq::<CursorImageView>::empty());
        true
    }

    /// The animation for the nominal cursor size `size`: the frames that
    /// `nearest_images` keeps and the sum of their delays.
    pub fn select(size: u32, images: &Vec<CursorImage>) -> (r: CursorAnimation)
        requires
            CursorAnimation::selectable(size, views(images@)),
        ensures
            exists|m: int|
                is_first_nearest(size, views(images@), m) && r.frames() == with_dimensions(
                    views(images@),
                    #[trigger] views(images@)[m].width,
                    views(images@)[m].height,
                ),
            r.spec_total_delay() == total_delay_of(r.frames()),
            r.wf(),
    {
        let frames = nearest_images(size, images);
        let total_delay = total_delay(&frames);
        CursorAnimation { frames, total_delay }
    }

    /// The length of one round of the animation, in milliseconds.
    pub fn total_delay(&self) -> (r: u32)
        ensures
            r == self.spec_total_delay(),
    {
        self.total_delay
    }

    /// The frame to show at time `time_ms` (in milliseconds): the time is
    /// taken modulo the length of a round, and the frame shown at that point
    /// of the round is returned.
    pub fn frame_at(&self, time_ms: u128) -> (r: CursorImage)
        requires
            self.wf(),
            self.spec_total_delay() > 0,
        ensures
            0 <= frame_index(animation_millis(time_ms, self.spec_total_delay()), self.frames())
                < self.frames().len(),
            r@ == self.frames()[frame_index(
                animation_millis(time_ms, self.spec_total_delay()),
                self.frames(),
            )],
    {
        let millis = (time_ms % (self.total_delay as u128)) as u32;
        frame(millis, &self.frames)
    }
}

/// The sum of the delays of the first `n` frames.
pub open spec fn delay_prefix(images: Seq<CursorImageView>, n: int) -> int {
    total_delay_of(images.take(n))
}

/// The frame shown at `millis` into a round is the one whose time slot holds
/// `millis`: the frames before it last no longer than `millis`, and together
/// with it they last longer.
pub proof fn lemma_frame_slot(millis: int, images: Seq<CursorImageView>)
    requires
        0 <= millis < total_delay_of(images),
    ensures
        delay_prefix(images, frame_index(millis, images)) <= millis < delay_prefix(
            images,
            frame_index(millis, images) + 1,
        ),
    decreases images.len(),
{
    let k = frame_index(millis, images);
    lemma_frame_index_in_range(millis, images);
    assert(images.take(1).drop_first() =~= Seq::<CursorImageView>::empty());
    if millis < images[0].delay {
        assert(images.take(0) =~= Seq::<CursorImageView>::empty());
        assert(images.take(1)[0] == images[0]);
        assert(total_delay_of(images.take(1)) == images[0].delay + total_delay_of(images.take(1).drop_first()));
        assert(total_delay_of(images.take(1)) == images[0].delay);
    } else {
        let rest = images.drop_first();
        let m = millis - images[0].delay;
        lemma_frame_slot(m, rest);
        let j = frame_index(m, rest);
        assert(k == 1 + j);
        lemma_frame_index_in_range(m, rest);
        assert(images.take(j + 1).drop_first() =~= rest.take(j));
        assert(images.take(j + 2).drop_first() =~= rest.take(j + 1));
        assert(images.take(j + 1)[0] == images[0]);
        assert(images.take(j + 2)[0] == images[0]);
        assert(total_delay_of(images.take(j + 1)) == images[0].delay + total_delay_of(rest.take(j)));
        assert(total_delay_of(images.take(j + 2)) == images[0].delay + total_delay_of(rest.take(j + 1)));
        assert(delay_prefix(rest, j) <= m < delay_prefix(rest, j + 1));
        assert(delay_prefix(images, k) == images[0].delay + delay_prefix(rest, j));
        assert(delay_prefix(images, k + 1) == images[0].delay + delay_prefix(rest, j + 1));
    }
}

/// Whether the animation frames for the current cursor icon and scale are
/// up to date.
#[derive(Debug)]
pub struct NearestImagesCache {
    loaded: bool,
}

impl NearestImagesCache {
    /// Whether the frames are up to date.
    pub closed spec fn spec_loaded(&self) -> bool {
        self.loaded
    }

    /// Nothing is loaded yet.
    pub fn new() -> (r: NearestImagesCache)
        ensures
            !r.spec_loaded(),
    {
        NearestImagesCache { loaded: false }
    }

    /// The cursor status changed: a named icon needs its frames chosen anew;
    /// a client-drawn or hidden cursor has no frames to choose.
    pub fn status_changed(&mut self, named: bool)
        ensures
            final(self).spec_loaded() == !named,
    {
        self.loaded = !named;
    }

    /// The output scale was set (`scale_changed` tells whether it differs
    /// from the previous one). Returns whether the frames of the named icon
    /// must be chosen again now; afterwards they are up to date.
    pub fn scale_set(&mut self, scale_changed: bool, named: bool) -> (recompute: bool)
        ensures
            final(self).spec_loaded(),
            recompute == ((scale_changed || !old(self).spec_loaded()) && named),
    {
        if scale_changed {
            self.loaded = false;
        }
        if !self.loaded {
            self.loaded = true;
            named
        } else {
            false
        }
    }
}

/// What the pointer currently shows.
#[derive(Debug, Clone, Copy, PartialEq, Eq, Structural)]
pub enum CursorKind {
    /// No cursor.
    Hidden,
    /// A named cursor icon drawn by the compositor.
    Named,
    /// A surface provided by a client; `alive` tells whether it still exists.
    Surface { alive: bool },
}

/// The cursor drawn in a frame, and whether the host window system's own
/// cursor stays visible: a client cursor whose surface is gone falls back to
/// the default named cursor, and the host cursor is hidden only while a
/// client surface is the cursor.
pub fn refresh_cursor(kind: CursorKind) -> (r: (CursorKind, bool))
    ensures
        r.0 == match kind {
            CursorKind::Surface { alive: false } => CursorKind::Named,
            other => other,
        },
        r.1 == !(r.0 is Surface),
{
    let shown = match kind {
        CursorKind::Surface { alive: false } => CursorKind::Named,
        other => other,
    };
    let host_visible = match shown {
        CursorKind::Surface { .. } => false,
        _ => true,
    };
    (shown, host_visible)
}

/// The animation repeats: a round later, the same point of the round (and
/// so the same frame) is shown.
pub proof fn lemma_animation_repeats(time_ms: u128, total: u32)
    requires
        total > 0,
        time_ms + total <= u128::MAX,
    ensures
        animation_millis((time_ms + total) as u128, total) == animation_millis(time_ms, total),
        0 <= animation_millis(time_ms, total) < total,
{
    vstd::arithmetic::div_mod::lemma_mod_add_multiples_vanish(time_ms as int, total as int);
    vstd::arithmetic::div_mod::lemma_mod_bound(time_ms as int, total as int);
}

} // verus!
