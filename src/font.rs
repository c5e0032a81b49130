use encoding_rs::Encoding;
use vstd::prelude::*;

verus! {

#[verifier::external_type_specification]
#[verifier::external_body]
pub struct ExEncoding(Encoding);

/// The WHATWG name of the text encoding that a Windows font charset selects,
/// or `None` where the caller's default applies.
pub open spec fn charset_label(charset: u32) -> Option<Seq<char>> {
    if charset == 0x00 {
        Some("windows-1252"@)
    } else if charset == 0x80 {
        Some("Shift_JIS"@)
    } else if charset == 0x81 {
        Some("EUC-KR"@)
    } else if charset == 0x86 {
        Some("GBK"@)
    } else if charset == 0x88 {
        Some("Big5"@)
    } else if charset == 0xA1 {
        Some("windows-1253"@)
    } else if charset == 0xA2 {
        Some("windows-1254"@)
    } else if charset == 0xA3 {
        Some("windows-1258"@)
    } else if charset == 0xB1 {
        Some("windows-1255"@)
    } else if charset == 0xB2 {
        Some("windows-1256"@)
    } else if charset == 0xBA {
        Some("windows-1257"@)
    } else if charset == 0xCC {
        Some("windows-1251"@)
    } else if charset == 0xDE {
        Some("windows-874"@)
    } else if charset == 0xEE {
        Some("windows-1250"@)
    } else {
        None
    }
}

/// Whether `s` is one of the encoding names that `charset_label` gives.
pub open spec fn is_charset_label(s: Seq<char>) -> bool {
    exists|c: u32| #[trigger] charset_label(c) == Some(s)
}

/// The encoding that encoding_rs's label table gives `label`.
pub uninterp spec fn labelled_encoding(label: Seq<char>) -> Encoding;

/// Relies on encoding_rs's `Encoding::for_label`: a lookup in a fixed table,
/// so the result depends on the label alone; every name of the Encoding
/// Standard is one of its labels, so each name that `charset_label` gives is
/// found.
#[verifier::external_body]
fn encoding_for_label(label: &str) -> (r: Option<&'static Encoding>)
    ensures
        r.is_some() ==> *r.unwrap() == labelled_encoding(label@),
        is_charset_label(label@) ==> r.is_some(),
{
    Encoding::for_label(label.as_bytes())
}

/// The name of the text encoding that `charset` selects; `None` where the
/// caller's default applies (JOHAB and every charset not listed).
pub fn charset_encoding_label(charset: u32) -> (r: Option<&'static str>)
    ensures
        r.is_some() == charset_label(charset).is_some(),
        r.is_some() ==> r.unwrap()@ == charset_label(charset).unwrap(),
{
    match charset {
        0x00 => Some("windows-1252"),
        0x80 => Some("Shift_JIS"),
        0x81 => Some("EUC-KR"),
        0x86 => Some("GBK"),
        0x88 => Some("Big5"),
        0xA1 => Some("windows-1253"),
        0xA2 => Some("windows-1254"),
        0xA3 => Some("windows-1258"),
        0xB1 => Some("windows-1255"),
        0xB2 => Some("windows-1256"),
        0xBA => Some("windows-1257"),
        0xCC => Some("windows-1251"),
        0xDE => Some("windows-874"),
        0xEE => Some("windows-1250"),
        _ => None,
    }
}

/// A region of a texture atlas that holds one packed image.
#[derive(Clone, Copy, Debug, PartialEq, Eq, Structural)]
pub struct AtlasRef {
    pub atlas_id: u32,
    pub x: i32,
    pub y: i32,
    pub w: i32,
    pub h: i32,
}

/// One glyph of a font: how far the pen moves, where the image starts, and
/// where its image was packed.
#[derive(Clone, Copy, Debug, PartialEq, Eq, Structural)]
pub struct Character {
    pub offset: i32,
    pub distance: i32,
    pub atlas_ref: AtlasRef,
}

/// A font: the glyphs of the character codes `first..=last`, in order.
#[derive(Clone, Debug)]
pub struct Font {
    pub name: Vec<u8>,
    pub sys_name: Vec<u8>,
    pub charset: u32,
    pub size: u32,
    pub bold: bool,
    pub italic: bool,
    pub first: u8,
    pub last: u8,
    pub tallest_char_height: u32,
    pub chars: Vec<Character>,
    /// Whether this font owns the graphics its glyphs point at.
    pub own_graphics: bool,
}

/// The glyph that a font holds for character code `index`, if any.
pub open spec fn char_at(first: u8, chars: Seq<Character>, index: u8) -> Option<Character> {
    if index >= first && (index - first) < chars.len() {
        Some(chars[index - first])
    } else {
        None
    }
}

impl Font {
    /// The glyph of character code `index`; `None` below `first` or past the
    /// last glyph held.
    pub fn get_char(&self, index: u8) -> (r: Option<Character>)
        ensures
            r == char_at(self.first, self.chars@, index),
    {
        if let Some(i) = index.checked_sub(self.first) {
            if (i as usize) < self.chars.len() {
                Some(self.chars[i as usize])
            } else {
                None
            }
        } else {
            None
        }
    }

    /// The text encoding that this font's charset selects, or `default`
    /// where the charset names none of its own.
    pub fn get_encoding(&self, default: &'static Encoding) -> (r: &'static Encoding)
        ensures
            charset_label(self.charset).is_none() ==> r == default,
            charset_label(self.charset) matches Some(l) ==> *r == labelled_encoding(l),
    {
        match charset_encoding_label(self.charset) {
            Some(label) => {
                proof {
                    assert(charset_label(self.charset) == Some(label@));
                }
                match encoding_for_label(label) {
                    Some(e) => e,
                    None => default,
                }
            },
            None => default,
        }
    }
}

/// One frame of a sprite: its size and where its image was packed.
#[derive(Clone, Copy, Debug, PartialEq, Eq, Structural)]
pub struct Frame {
    pub width: u32,
    pub height: u32,
    pub atlas_ref: AtlasRef,
}

/// A sprite: a common size and a sequence of frames.
#[derive(Clone, Debug)]
pub struct Sprite {
    pub width: u32,
    pub height: u32,
    pub frames: Vec<Frame>,
}

/// Whether column `x` of a `w` by `h` RGBA image holds a pixel that is not
/// fully transparent.
pub open spec fn column_filled(px: Seq<u8>, w: int, h: int, x: int) -> bool {
    exists|y: int| 0 <= y < h && #[trigger] px[(y * w + x) * 4 + 3] != 0
}

/// The leftmost filled column of the image, or `w - 1` where none is.
pub open spec fn left_edge(px: Seq<u8>, w: int, h: int) -> int {
    if exists|x: int| 0 <= x < w && #[trigger] column_filled(px, w, h, x) {
        choose|x: int|
            0 <= x < w && column_filled(px, w, h, x) && forall|x2: int|
                0 <= x2 < x ==> !#[trigger] column_filled(px, w, h, x2)
    } else {
        w - 1
    }
}

/// The rightmost filled column of the image, or 0 where none is.
pub open spec fn right_edge(px: Seq<u8>, w: int, h: int) -> int {
    if exists|x: int| 0 <= x < w && #[trigger] column_filled(px, w, h, x) {
        choose|x: int|
            0 <= x < w && column_filled(px, w, h, x) && forall|x2: int|
                x < x2 < w ==> !#[trigger] column_filled(px, w, h, x2)
    } else {
        0
    }
}

/// Whether column `x` of the image holds a pixel that is not fully transparent.
fn column_has_ink(px: &Vec<u8>, w: u32, h: u32, x: u32) -> (r: bool)
    requires
        x < w,
        w * h * 4 <= px@.len(),
    ensures
        r == column_filled(px@, w as int, h as int, x as int),
{
    let mut y: u32 = 0;
    while y < h
        invariant
            y <= h,
            x < w,
            w * h * 4 <= px@.len(),
            forall|y2: int| 0 <= y2 < y ==> #[trigger] px@[(y2 * w + x) * 4 + 3] == 0,
        decreases h - y,
    {
        assert(y * w + x < w * h) by (nonlinear_arith)
            requires
                y < h,
                x < w,
        ;
        assert(y * w <= y * w + x);
        let n = px.len();
        assert(w * h * 4 <= n);
        let i: usize = ((y as usize) * (w as usize) + (x as usize)) * 4 + 3;
        if px[i] != 0 {
            return true;
        }
        y += 1;
    }
    false
}

/// The leftmost filled column of the image, or `w` where none is.
fn first_filled_column(px: &Vec<u8>, w: u32, h: u32) -> (r: u32)
    requires
        w * h * 4 <= px@.len(),
    ensures
        r <= w,
        r < w ==> column_filled(px@, w as int, h as int, r as int),
        forall|x: int| 0 <= x < r ==> !#[trigger] column_filled(px@, w as int, h as int, x),
{
    let mut x: u32 = 0;
    while x < w
        invariant
            x <= w,
            w * h * 4 <= px@.len(),
            forall|x2: int| 0 <= x2 < x ==> !#[trigger] column_filled(px@, w as int, h as int, x2),
        decreases w - x,
    {
        if column_has_ink(px, w, h, x) {
            return x;
        }
        x += 1;
    }
    w
}

/// One past the rightmost filled column of the image, or 0 where none is.
fn end_of_filled_columns(px: &Vec<u8>, w: u32, h: u32) -> (r: u32)
    requires
        w * h * 4 <= px@.len(),
    ensures
        r <= w,
        r > 0 ==> column_filled(px@, w as int, h as int, r - 1),
        forall|x: int| r <= x < w ==> !#[trigger] column_filled(px@, w as int, h as int, x),
{
    let mut x: u32 = w;
    while x > 0
        invariant
            x <= w,
            w * h * 4 <= px@.len(),
            forall|x2: int| x <= x2 < w ==> !#[trigger] column_filled(px@, w as int, h as int, x2),
        decreases x,
    {
        if column_has_ink(px, w, h, x - 1) {
            return x;
        }
        x -= 1;
    }
    0
}

/// The glyphs that a sprite's frames give a font. A proportional glyph
/// spans the filled columns of its frame, `pixels[i]` being the RGBA image of
/// frame `i`; otherwise each glyph is the whole frame. `sep` is added to each
/// advance.
pub open spec fn sprite_glyph(
    sprite: Sprite,
    pixels: Seq<Vec<u8>>,
    prop: bool,
    sep: i32,
    i: int,
) -> (int, int) {
    if prop {
        let px = pixels[i]@;
        let w = sprite.width as int;
        let h = sprite.height as int;
        (right_edge(px, w, h) + sep - left_edge(px, w, h), -left_edge(px, w, h))
    } else {
        (sprite.frames[i].width + sep, 0)
    }
}

/// The glyphs of a font drawn from a sprite, one per frame, each with its
/// frame's atlas region; see `sprite_glyph`.
pub fn create_chars_from_sprite(
    sprite: &Sprite,
    prop: bool,
    sep: i32,
    pixels: &Vec<Vec<u8>>,
) -> (r: Vec<Character>)
    requires
        prop ==> pixels@.len() == sprite.frames@.len(),
        prop ==> forall|i: int|
            0 <= i < pixels@.len() ==> sprite.width * sprite.height * 4 <= (
            #[trigger] pixels@[i])@.len(),
        prop ==> sprite.width <= i32::MAX,
        prop ==> i32::MIN <= sep - sprite.width && sep + sprite.width < i32::MAX,
        !prop ==> forall|i: int|
            0 <= i < sprite.frames@.len() ==> #[trigger] sprite.frames@[i].width + sep
                <= i32::MAX && sprite.frames@[i].width <= i32::MAX,
    ensures
        r@.len() == sprite.frames@.len(),
        forall|i: int|
            0 <= i < r@.len() ==> {
                &&& (#[trigger] r@[i]).atlas_ref == sprite.frames@[i].atlas_ref
                &&& (r@[i].offset as int, r@[i].distance as int) == sprite_glyph(
                    *sprite,
                    pixels@,
                    prop,
                    sep,
                    i,
                )
            },
{
    let mut chars: Vec<Character> = Vec::with_capacity(sprite.frames.len());
    let w = sprite.width;
    let h = sprite.height;
    let mut i: usize = 0;
    while i < sprite.frames.len()
        invariant
            i <= sprite.frames@.len(),
            w == sprite.width,
            h == sprite.height,
            chars@.len() == i,
            prop ==> pixels@.len() == sprite.frames@.len(),
            prop ==> forall|i: int|
                0 <= i < pixels@.len() ==> sprite.width * sprite.height * 4 <= (
                #[trigger] pixels@[i])@.len(),
            prop ==> sprite.width <= i32::MAX,
            prop ==> i32::MIN <= sep - sprite.width && sep + sprite.width < i32::MAX,
            !prop ==> forall|i: int|
                0 <= i < sprite.frames@.len() ==> #[trigger] sprite.frames@[i].width + sep
                    <= i32::MAX && sprite.frames@[i].width <= i32::MAX,
            forall|j: int|
                0 <= j < i ==> {
                    &&& (#[trigger] chars@[j]).atlas_ref == sprite.frames@[j].atlas_ref
                    &&& (chars@[j].offset as int, chars@[j].distance as int) == sprite_glyph(
                        *sprite,
                        pixels@,
                        prop,
                        sep,
                        j,
                    )
                },
        decreases sprite.frames@.len() - i,
    {
        let frame = sprite.frames[i];
        if prop {
            let px = &pixels[i];
            let left = first_filled_column(px, w, h);
            let right = end_of_filled_columns(px, w, h);
            let left_x: i32 = if left < w {
                left as i32
            } else {
                w as i32 - 1
            };
            let right_x: i32 = if right > 0 {
                (right - 1) as i32
            } else {
                0
            };
            proof {
                let (pw, ph) = (w as int, h as int);
                if left < w {
                    let c = left_edge(px@, pw, ph);
                    assert(0 <= c < pw && column_filled(px@, pw, ph, c) && forall|x2: int|
                        0 <= x2 < c ==> !#[trigger] column_filled(px@, pw, ph, x2));
                    if c < left {
                        assert(!column_filled(px@, pw, ph, c));
                    }
                    if c > left {
                        assert(!column_filled(px@, pw, ph, left as int));
                    }
                    let d = right_edge(px@, pw, ph);
                    assert(right > 0);
                    assert(column_filled(px@, pw, ph, right - 1));
                    assert(0 <= d < pw && column_filled(px@, pw, ph, d) && forall|x2: int|
                        d < x2 < pw ==> !#[trigger] column_filled(px@, pw, ph, x2));
                    if d < right - 1 {
                        assert(!column_filled(px@, pw, ph, right - 1));
                    }
                    if d > right - 1 {
                        assert(!column_filled(px@, pw, ph, d));
                    }
                } else {
                    assert(!exists|x: int| 0 <= x < pw && #[trigger] column_filled(px@, pw, ph, x));
                    assert(right == 0);
                }
            }
            assert(-1 <= left_x && left_x < w);
            assert(0 <= right_x && right_x <= w);
            assert(left_x as int == left_edge(px@, w as int, h as int));
            assert(right_x as int == right_edge(px@, w as int, h as int));
            chars.push(
                Character {
                    offset: right_x + sep - left_x,
                    distance: -left_x,
                    atlas_ref: frame.atlas_ref,
                },
            );
        } else {
            chars.push(
                Character { offset: frame.width as i32 + sep, distance: 0, atlas_ref: frame.atlas_ref },
            );
        }
        i += 1;
    }
    chars
}

/// Packs images into texture atlases.
pub trait TexturePacker {
    /// Packs a `width` by `height` RGBA image with the given origin; `None`
    /// where there is no room for it.
    fn texture(
        &mut self,
        width: i32,
        height: i32,
        xorigin: i32,
        yorigin: i32,
        data: Vec<u8>,
    ) -> Option<AtlasRef>;
}

/// Number of glyphs in the built-in font: the codes `0x20..0x80`.
pub const DEFAULT_GLYPHS: usize = 0x60;

/// Where the record of glyph `k` starts in the built-in font's data. A record
/// is four bytes (offset, distance, width, height) and then one alpha byte
/// per pixel.
pub open spec fn record_start(data: Seq<u8>, k: nat) -> int
    decreases k,
{
    if k == 0 {
        0
    } else {
        let s = record_start(data, (k - 1) as nat);
        s + 4 + data[s + 2] * data[s + 3]
    }
}

/// Whether the first `n` glyph records lie within `data`.
pub open spec fn records_fit(data: Seq<u8>, n: nat) -> bool {
    forall|k: nat| k < n ==> #[trigger] record_start(data, k + 1) <= data.len()
}

/// Field `i` (0 to 3) of glyph record `k`.
pub open spec fn record_field(data: Seq<u8>, k: nat, i: int) -> u8 {
    data[record_start(data, k) + i]
}

/// The tallest of the first `n` glyphs.
pub open spec fn tallest(data: Seq<u8>, n: nat) -> u32
    decreases n,
{
    if n == 0 {
        0
    } else {
        let h = tallest(data, (n - 1) as nat);
        let hk = record_field(data, (n - 1) as nat, 3) as u32;
        if hk > h {
            hk
        } else {
            h
        }
    }
}

/// The RGBA image of a glyph whose coverage is `alpha`: white, with each
/// byte of `alpha` as the opacity of its pixel.
pub open spec fn rgba_of(alpha: Seq<u8>) -> Seq<u8> {
    Seq::new(
        (alpha.len() * 4) as nat,
        |i: int|
            if i % 4 == 3 {
                alpha[i / 4]
            } else {
                0xFFu8
            },
    )
}

/// Expands per-pixel coverage into white RGBA pixels.
pub fn glyph_rgba(alpha: &[u8]) -> (r: Vec<u8>)
    requires
        alpha@.len() * 4 <= usize::MAX,
    ensures
        r@ == rgba_of(alpha@),
{
    let mut r: Vec<u8> = Vec::with_capacity(alpha.len() * 4);
    let mut i: usize = 0;
    while i < alpha.len()
        invariant
            i <= alpha@.len(),
            alpha@.len() * 4 <= usize::MAX,
            r@ == rgba_of(alpha@.subrange(0, i as int)),
        decreases alpha@.len() - i,
    {
        r.push(0xFF);
        r.push(0xFF);
        r.push(0xFF);
        r.push(alpha[i]);
        i += 1;
        assert(r@ =~= rgba_of(alpha@.subrange(0, i as int)));
    }
    assert(alpha@.subrange(0, i as int) =~= alpha@);
    r
}

/// Whether `chars` holds, in order, the glyphs of the first `n` records of
/// `data`, each with the offset and distance of its record read as signed
/// bytes.
pub open spec fn glyphs_match(data: Seq<u8>, chars: Seq<Character>, n: nat) -> bool {
    &&& chars.len() == n
    &&& forall|k: int|
        0 <= k < n ==> {
            &&& (#[trigger] chars[k]).offset == record_field(data, k as nat, 0) as i8 as i32
            &&& chars[k].distance == record_field(data, k as nat, 1) as i8 as i32
        }
}

/// The image of one glyph: its size and its RGBA pixels.
pub struct GlyphImage {
    pub width: u32,
    pub height: u32,
    pub rgba: Vec<u8>,
}

/// The coverage bytes of glyph record `k`.
pub open spec fn record_alpha(data: Seq<u8>, k: nat) -> Seq<u8> {
    let s = record_start(data, k);
    data.subrange(s + 4, record_start(data, k + 1))
}

/// Whether `img` is the image of glyph record `k`.
pub open spec fn image_of_record(data: Seq<u8>, k: nat, img: GlyphImage) -> bool {
    &&& img.width == record_field(data, k, 2)
    &&& img.height == record_field(data, k, 3)
    &&& img.rgba@ == rgba_of(record_alpha(data, k))
}

/// The images of the built-in font's glyphs, in order.
pub fn default_font_images(data: &[u8]) -> (r: Vec<GlyphImage>)
    requires
        records_fit(data@, DEFAULT_GLYPHS as nat),
    ensures
        r@.len() == DEFAULT_GLYPHS,
        forall|k: int| 0 <= k < DEFAULT_GLYPHS ==> image_of_record(data@, k as nat, #[trigger] r@[k]),
{
    let mut images: Vec<GlyphImage> = Vec::with_capacity(DEFAULT_GLYPHS);
    let mut cursor: usize = 0;
    let mut k: usize = 0;
    while k < DEFAULT_GLYPHS
        invariant
            k <= DEFAULT_GLYPHS,
            records_fit(data@, DEFAULT_GLYPHS as nat),
            cursor == record_start(data@, k as nat),
            images@.len() == k,
            forall|j: int| 0 <= j < k ==> image_of_record(data@, j as nat, #[trigger] images@[j]),
        decreases DEFAULT_GLYPHS - k,
    {
        assert(record_start(data@, (k + 1) as nat) <= data@.len());
        proof {
            let w = data@[cursor + 2] as int;
            let h = data@[cursor + 3] as int;
            assert(w * h >= 0) by (nonlinear_arith)
                requires
                    w >= 0,
                    h >= 0,
            ;
            assert(record_start(data@, (k + 1) as nat) == cursor + 4 + w * h);
        }
        let n = data.len();
        assert(cursor + 4 <= n);
        let width = data[cursor + 2] as u32;
        let height = data[cursor + 3] as u32;
        assert(width * height <= 255 * 255) by (nonlinear_arith)
            requires
                width <= 255,
                height <= 255,
        ;
        let size = (width * height) as usize;
        let rgba = glyph_rgba(&data[cursor + 4..cursor + 4 + size]);
        images.push(GlyphImage { width, height, rgba });
        cursor += 4 + size;
        k += 1;
    }
    images
}

/// Whether `answers` are what a packer answered when offered `n` images in
/// order, the offers ending at its first refusal.
pub open spec fn packed_in_order(answers: Seq<Option<AtlasRef>>, n: nat) -> bool {
    &&& answers.len() <= n
    &&& forall|k: int| 0 <= k < answers.len() - 1 ==> (#[trigger] answers[k]).is_some()
    &&& answers.len() < n ==> answers.len() > 0 && answers.last().is_none()
}

/// Offers each image to `atlases` in order, at its size with origin (0, 0),
/// and stops at the first refusal; returns every answer received.
pub fn pack_glyphs<A: TexturePacker>(images: &Vec<GlyphImage>, atlases: &mut A) -> (r: Vec<
    Option<AtlasRef>,
>)
    requires
        forall|k: int|
            0 <= k < images@.len() ==> (#[trigger] images@[k]).width <= i32::MAX
                && images@[k].height <= i32::MAX,
    ensures
        packed_in_order(r@, images@.len()),
{
    let mut answers: Vec<Option<AtlasRef>> = Vec::with_capacity(images.len());
    let mut k: usize = 0;
    while k < images.len()
        invariant
            k <= images@.len(),
            answers@.len() == k,
            forall|j: int| 0 <= j < k ==> (#[trigger] answers@[j]).is_some(),
            forall|j: int|
                0 <= j < images@.len() ==> (#[trigger] images@[j]).width <= i32::MAX
                    && images@[j].height <= i32::MAX,
        decreases images@.len() - k,
    {
        let img = &images[k];
        let answer = atlases.texture(img.width as i32, img.height as i32, 0, 0, img.rgba.clone());
        answers.push(answer);
        if answer.is_none() {
            return answers;
        }
        k += 1;
    }
    answers
}

/// Whether each of the `n` glyphs was packed.
pub open spec fn all_packed(answers: Seq<Option<AtlasRef>>, n: nat) -> bool {
    answers.len() == n && forall|k: int| 0 <= k < n ==> (#[trigger] answers[k]).is_some()
}

/// What the built-in font is, given the packer's answers for its glyphs: the
/// font where every glyph was packed, with glyph `k` in the region of
/// answer `k`; otherwise the error that the atlas is full.
pub open spec fn assembled_as(
    data: Seq<u8>,
    answers: Seq<Option<AtlasRef>>,
    r: Result<Font, String>,
) -> bool {
    match r {
        Ok(f) => {
            &&& all_packed(answers, DEFAULT_GLYPHS as nat)
            &&& f.name@ == "default_font"@.map_values(|c: char| c as u8)
            &&& f.sys_name@ == "Arimo"@.map_values(|c: char| c as u8)
            &&& f.charset == 1 && f.size == 12 && !f.bold && !f.italic
            &&& f.first == 0x20 && f.last == 0x7f && f.own_graphics
            &&& f.tallest_char_height == tallest(data, DEFAULT_GLYPHS as nat)
            &&& glyphs_match(data, f.chars@, DEFAULT_GLYPHS as nat)
            &&& forall|k: int|
                0 <= k < DEFAULT_GLYPHS ==> (#[trigger] f.chars@[k]).atlas_ref
                    == answers[k].unwrap()
        },
        Err(e) => {
            &&& !all_packed(answers, DEFAULT_GLYPHS as nat)
            &&& e@ == "Couldn't pack default font"@
        },
    }
}

/// Builds the built-in font from its glyph records and the regions where
/// its glyphs were packed, one answer per glyph.
pub fn assemble_default_font(data: &[u8], answers: &Vec<Option<AtlasRef>>) -> (r: Result<
    Font,
    String,
>)
    requires
        records_fit(data@, DEFAULT_GLYPHS as nat),
    ensures
        assembled_as(data@, answers@, r),
{
    if answers.len() != DEFAULT_GLYPHS {
        return Err(String::from_str("Couldn't pack default font"));
    }
    let mut chars: Vec<Character> = Vec::with_capacity(DEFAULT_GLYPHS);
    let mut tallest_char_height: u32 = 0;
    let mut cursor: usize = 0;
    let mut k: usize = 0;
    while k < DEFAULT_GLYPHS
        invariant
            k <= DEFAULT_GLYPHS,
            answers@.len() == DEFAULT_GLYPHS,
            records_fit(data@, DEFAULT_GLYPHS as nat),
            cursor == record_start(data@, k as nat),
            tallest_char_height == tallest(data@, k as nat),
            glyphs_match(data@, chars@, k as nat),
            forall|j: int| 0 <= j < k ==> (#[trigger] answers@[j]).is_some(),
            forall|j: int| 0 <= j < k ==> (#[trigger] chars@[j]).atlas_ref == answers@[j].unwrap(),
        decreases DEFAULT_GLYPHS - k,
    {
        assert(record_start(data@, (k + 1) as nat) <= data@.len());
        let atlas_ref = match answers[k] {
            Some(a) => a,
            None => {
                return Err(String::from_str("Couldn't pack default font"));
            },
        };
        let offset = data[cursor] as i8 as i32;
        let distance = data[cursor + 1] as i8 as i32;
        let width = data[cursor + 2] as u32;
        let height = data[cursor + 3] as u32;
        if height > tallest_char_height {
            tallest_char_height = height;
        }
        assert(width * height <= 255 * 255) by (nonlinear_arith)
            requires
                width <= 255,
                height <= 255,
        ;
        cursor += 4 + (width * height) as usize;
        chars.push(Character { offset, distance, atlas_ref });
        k += 1;
    }
    // "default_font" and "Arimo" in ASCII
    let name: Vec<u8> = vec![100, 101, 102, 97, 117, 108, 116, 95, 102, 111, 110, 116];
    let sys_name: Vec<u8> = vec![65, 114, 105, 109, 111];
    proof {
        reveal_strlit("default_font");
        reveal_strlit("Arimo");
        assert(name@ =~= "default_font"@.map_values(|c: char| c as u8));
        assert(sys_name@ =~= "Arimo"@.map_values(|c: char| c as u8));
    }
    Ok(
        Font {
            name,
            sys_name,
            charset: 1,
            size: 12,
            bold: false,
            italic: false,
            first: 0x20,
            last: 0x7f,
            tallest_char_height,
            chars,
            own_graphics: true,
        },
    )
}

/// Builds the built-in font from its glyph records, offering each glyph's
/// image to `atlases` in order. Whatever the packer answers, the result is
/// `assemble_default_font` of its answers: the font where it packed every
/// glyph, the error that the atlas is full at its first refusal.
pub fn load_default_font<A: TexturePacker>(data: &[u8], atlases: &mut A) -> (r: Result<
    Font,
    String,
>)
    requires
        records_fit(data@, DEFAULT_GLYPHS as nat),
    ensures
        exists|answers: Seq<Option<AtlasRef>>|
            packed_in_order(answers, DEFAULT_GLYPHS as nat) && assembled_as(data@, answers, r),
{
    let images = default_font_images(data);
    let answers = pack_glyphs(&images, atlases);
    let r = assemble_default_font(data, &answers);
    assert(packed_in_order(answers@, DEFAULT_GLYPHS as nat) && assembled_as(data@, answers@, r));
    r
}

} // verus!
