//! Player capabilities, native window identities and the browser frames
//! composed over native video.
use vstd::prelude::*;

verus! {

/// What a player backend supports.
#[derive(Debug, Clone, Copy, PartialEq, Eq, Structural)]
pub struct Capabilities {
    pub chapter_markers: bool,
    pub external_subtitles: bool,
    pub injected_hotkeys: bool,
    pub absolute_volume: bool,
    pub pushes_position: bool,
    pub fullscreen: bool,
    pub playback_tuning: bool,
}

impl Default for Capabilities {
    fn default() -> (r: Self)
        ensures
            !r.chapter_markers && !r.external_subtitles && !r.injected_hotkeys
                && !r.absolute_volume && !r.pushes_position && !r.fullscreen && !r.playback_tuning,
    {
        Capabilities {
            chapter_markers: false,
            external_subtitles: false,
            injected_hotkeys: false,
            absolute_volume: false,
            pushes_position: false,
            fullscreen: false,
            playback_tuning: false,
        }
    }
}

/// The mpv backend supports everything.
pub fn mpv_capabilities() -> (r: Capabilities)
    ensures
        r.chapter_markers && r.external_subtitles && r.injected_hotkeys && r.absolute_volume
            && r.pushes_position && r.fullscreen && r.playback_tuning,
{
    Capabilities {
        chapter_markers: true,
        external_subtitles: true,
        injected_hotkeys: true,
        absolute_volume: true,
        pushes_position: true,
        fullscreen: true,
        playback_tuning: true,
    }
}

/// MPC-HC takes external subtitles, absolute volume and fullscreen only.
pub fn mpchc_capabilities() -> (r: Capabilities)
    ensures
        !r.chapter_markers && r.external_subtitles && !r.injected_hotkeys && r.absolute_volume
            && !r.pushes_position && r.fullscreen && !r.playback_tuning,
{
    Capabilities {
        chapter_markers: false,
        external_subtitles: true,
        injected_hotkeys: false,
        absolute_volume: true,
        pushes_position: false,
        fullscreen: true,
        playback_tuning: false,
    }
}

/// Opaque native window identity owned by a playback backend: the top-level
/// window and the window that receives content.
#[derive(Debug, Clone, Copy, PartialEq, Eq, Structural)]
pub struct NativeWindowHandle {
    raw: usize,
    content: usize,
}

impl NativeWindowHandle {
    /// The top-level window.
    pub closed spec fn raw_spec(self) -> usize {
        self.raw
    }

    /// The content window.
    pub closed spec fn content_spec(self) -> usize {
        self.content
    }

    /// A handle for a window whose content is the window itself; none for a
    /// null window.
    pub fn new(raw: usize) -> (r: Option<Self>)
        ensures
            match r {
                Some(h) => raw != 0 && h.raw_spec() == raw && h.content_spec() == raw,
                None => raw == 0,
            },
    {
        if raw != 0 {
            Some(NativeWindowHandle { raw, content: raw })
        } else {
            None
        }
    }

    /// The top-level window.
    pub fn raw(self) -> (r: usize)
        ensures
            r == self.raw_spec(),
    {
        self.raw
    }

    /// A handle with a separate content window; none when either is null.
    pub fn with_content(raw: usize, content: usize) -> (r: Option<Self>)
        ensures
            match r {
                Some(h) => raw != 0 && content != 0 && h.raw_spec() == raw && h.content_spec()
                    == content,
                None => raw == 0 || content == 0,
            },
    {
        if raw != 0 && content != 0 {
            Some(NativeWindowHandle { raw, content })
        } else {
            None
        }
    }

    /// The content window.
    pub fn content(self) -> (r: usize)
        ensures
            r == self.content_spec(),
    {
        self.content
    }
}

/// The largest frame side accepted for composition.
pub const MAX_FRAME_SIDE: u16 = 16384;

/// An owned, premultiplied BGRA browser frame for native video composition.
pub struct NativeOverlayFrame {
    pub pixels: Vec<u8>,
    pub width: u16,
    pub height: u16,
}

impl NativeOverlayFrame {
    /// The frame has sides in `1..=16384` and exactly four bytes per pixel.
    pub open spec fn valid(&self) -> bool {
        1 <= self.width <= MAX_FRAME_SIDE && 1 <= self.height <= MAX_FRAME_SIDE && self.pixels@.len()
            == self.width as int * self.height as int * 4
    }

    /// Some pixel is fully transparent, so video shows through.
    pub open spec fn exposes_video_spec(&self) -> bool {
        exists|p: int| 0 <= p < self.pixels@.len() / 4 && self.pixels@[#[trigger] (4 * p + 3)] == 0
    }

    /// Accepts a frame with sides in `1..=16384` and four bytes per pixel.
    pub fn validate(&self) -> (r: Result<(), String>)
        ensures
            r is Ok <==> self.valid(),
            r matches Err(e) ==> e@ == "invalid native UI frame dimensions"@,
    {
        if !(1 <= self.width && self.width <= MAX_FRAME_SIDE) || !(1 <= self.height && self.height
            <= MAX_FRAME_SIDE) {
            return Err(crate::text::to_owned("invalid native UI frame dimensions"));
        }
        let w = self.width as usize;
        let h = self.height as usize;
        assert(w * h <= 16384 * 16384) by (nonlinear_arith)
            requires w <= 16384, h <= 16384;
        if self.pixels.len() != w * h * 4 {
            return Err(crate::text::to_owned("invalid native UI frame dimensions"));
        }
        Ok(())
    }

    /// Whether some whole pixel of the frame is fully transparent.
    pub fn exposes_video(&self) -> (r: bool)
        ensures
            r == self.exposes_video_spec(),
    {
        let count = self.pixels.len() / 4;
        let mut p: usize = 0;
        while p < count
            invariant
                count == self.pixels@.len() / 4,
                p <= count,
                forall|q: int| 0 <= q < p ==> self.pixels@[#[trigger] (4 * q + 3)] != 0,
            decreases count - p,
        {
            let len = self.pixels.len();
            assert(4 * p + 3 < len) by (nonlinear_arith)
                requires p < len / 4;
            if self.pixels[4 * p + 3] == 0 {
                return true;
            }
            p = p + 1;
        }
        false
    }
}

/// `n / d` rounded toward zero, as integer division in Rust rounds, for a
/// positive `d`.
pub open spec fn div_toward_zero(n: int, d: int) -> int {
    if n >= 0 {
        n / d
    } else {
        -((-n) / d)
    }
}

/// The display row a frame row lands on when `native_height` rows are
/// stretched over `drawable_height`, rounded to nearest.
pub open spec fn display_row_spec(row: int, native_height: int, drawable_height: int) -> int {
    div_toward_zero(row * drawable_height + native_height / 2, native_height)
}

/// The display row a frame row lands on.
pub fn display_row(row: usize, native_height: u16, drawable_height: i32) -> (r: i64)
    requires
        native_height > 0,
        row <= 16384,
    ensures
        r == display_row_spec(row as int, native_height as int, drawable_height as int),
{
    let r64 = row as i64;
    let d64 = drawable_height as i64;
    assert(-16384 * 2147483648 <= r64 * d64 <= 16384 * 2147483647) by (nonlinear_arith)
        requires 0 <= r64 <= 16384, -2147483648 <= d64 <= 2147483647;
    let product = r64 * d64;
    let n = product + native_height as i64 / 2;
    let h = native_height as i64;
    if n >= 0 {
        n / h
    } else {
        let m = -n;
        -(m / h)
    }
}

/// Whether row `r` (of `stride` bytes) has a non-zero byte.
pub open spec fn row_visible(pixels: Seq<u8>, stride: int, r: int) -> bool {
    exists|k: int| 0 <= k < stride && pixels[#[trigger] (r * stride + k)] != 0
}

/// Whether frame row `row` has a non-zero byte.
fn row_has_content(pixels: &Vec<u8>, stride: usize, row: usize) -> (r: bool)
    requires
        (row + 1) * stride <= pixels@.len(),
    ensures
        r == row_visible(pixels@, stride as int, row as int),
{
    let mut k: usize = 0;
    while k < stride
        invariant
            k <= stride,
            (row + 1) * stride <= pixels@.len(),
            forall|j: int| 0 <= j < k ==> pixels@[#[trigger] (row * stride + j)] == 0,
        decreases stride - k,
    {
        assert(row * stride + k < (row + 1) * stride) by (nonlinear_arith)
            requires k < stride;
        let len = pixels.len();
        assert(row * stride + k < len);
        assert(row * stride <= len) by (nonlinear_arith)
            requires row * stride + k < len, k >= 0;
        let idx = row * stride + k;
        if pixels[idx] != 0 {
            return true;
        }
        k = k + 1;
    }
    false
}

/// The rows `start..end` that bound the visible rows of a band, if any.
pub open spec fn band_bounds(pixels: Seq<u8>, stride: int, start: int, end: int, r: Option<(usize, usize)>) -> bool {
    match r {
        None => forall|q: int| start <= q < end ==> !#[trigger] row_visible(pixels, stride, q),
        Some((a, b)) => start <= a < b <= end && row_visible(pixels, stride, a as int)
            && row_visible(pixels, stride, b - 1) && (forall|q: int|
            start <= q < a ==> !#[trigger] row_visible(pixels, stride, q)) && (forall|q: int|
            b <= q < end ==> !#[trigger] row_visible(pixels, stride, q)),
    }
}

/// Whether row `row` of a band ending at `end` has a non-zero byte.
fn row_in_band_visible(pixels: &Vec<u8>, stride: usize, row: usize, end: usize) -> (r: bool)
    requires
        row < end,
        end * stride <= pixels@.len(),
    ensures
        r == row_visible(pixels@, stride as int, row as int),
{
    assert((row + 1) * stride <= end * stride) by (nonlinear_arith)
        requires row < end;
    row_has_content(pixels, stride, row)
}

/// The first and one-past-last visible rows among `start..end`.
fn band(pixels: &Vec<u8>, stride: usize, start: usize, end: usize) -> (r: Option<(usize, usize)>)
    requires
        start <= end,
        end * stride <= pixels@.len(),
    ensures
        band_bounds(pixels@, stride as int, start as int, end as int, r),
{
    let mut first = start;
    while first < end && !row_in_band_visible(pixels, stride, first, end)
        invariant
            start <= first <= end,
            end * stride <= pixels@.len(),
            forall|q: int| start <= q < first ==> !#[trigger] row_visible(pixels@, stride as int, q),
        decreases end - first,
    {
        first = first + 1;
    }
    if first == end {
        return None;
    }
    let mut last = end;
    while last > first + 1 && !row_in_band_visible(pixels, stride, last - 1, end)
        invariant
            start <= first < last <= end,
            end * stride <= pixels@.len(),
            row_visible(pixels@, stride as int, first as int),
            forall|q: int| last <= q < end ==> !#[trigger] row_visible(pixels@, stride as int, q),
        decreases last,
    {
        last = last - 1;
    }
    Some((first, last))
}

/// The visible row ranges of the upper and lower halves of a frame (the
/// upper half takes the middle row of an odd height); none for a half that
/// is wholly transparent.
pub fn visible_bands(frame: &NativeOverlayFrame) -> (r: (Option<(usize, usize)>, Option<(usize, usize)>))
    requires
        frame.pixels@.len() >= frame.width as int * frame.height as int * 4,
    ensures
        ({
            let stride = frame.width as int * 4;
            let split = (frame.height as int + 1) / 2;
            band_bounds(frame.pixels@, stride, 0, split, r.0) && band_bounds(
                frame.pixels@,
                stride,
                split,
                frame.height as int,
                r.1,
            )
        }),
{
    let stride = frame.width as usize * 4;
    let height = frame.height as usize;
    let split = (height + 1) / 2;
    assert(height * stride == frame.width as int * frame.height as int * 4) by (nonlinear_arith)
        requires stride == frame.width as int * 4, height == frame.height as int;
    assert(split * stride <= height * stride) by (nonlinear_arith)
        requires split <= height;
    let upper = band(&frame.pixels, stride, 0, split);
    let lower = band(&frame.pixels, stride, split, height);
    (upper, lower)
}

} // verus!
