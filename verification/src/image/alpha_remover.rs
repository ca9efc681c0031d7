//! Removing transparency: every pixel of an image with an alpha channel is
//! laid over a white background, and the alpha channel is dropped.
//!
//! With `top` the largest value of a sample, a colour sample `c` under the
//! alpha sample `a` becomes `(1 - a / top) * top + (a / top) * c`, rounded to
//! the nearest whole number. The arithmetic is exact: that value is
//! `top - a` plus `a * c / top`. With samples of eight or sixteen bits `top`
//! is odd, so that no such quotient lies halfway between two whole numbers.

use vstd::prelude::*;

verus! {

/// The value of a colour sample `channel` seen through the alpha sample
/// `alpha` over white, where `top` is the largest value of a sample:
/// `top - alpha + alpha * channel / top`, rounded to the nearest whole number.
pub open spec fn composite(channel: nat, alpha: nat, top: nat) -> nat
    recommends
        top > 0,
        channel <= top,
        alpha <= top,
{
    (top - alpha + (2 * alpha * channel + top) / (2 * top)) as nat
}

/// The samples of an image without its alpha channel: of every four samples
/// of `samples` the first three, each composited under the fourth.
pub open spec fn flattened_samples(samples: Seq<nat>, top: nat) -> Seq<nat> {
    Seq::new(
        (samples.len() / 4 * 3) as nat,
        |i: int| composite(samples[i / 3 * 4 + i % 3], samples[i / 3 * 4 + 3], top),
    )
}

/// A composited sample is a sample: it does not exceed `top`. It is also the
/// whole number nearest to the exact value `top - alpha + alpha * channel /
/// top`: twice their distance, times `top`, is at most `top`.
pub proof fn lemma_composite_is_nearest(channel: nat, alpha: nat, top: nat)
    requires
        top > 0,
        channel <= top,
        alpha <= top,
    ensures
        composite(channel, alpha, top) <= top,
        composite(channel, alpha, top) >= top - alpha,
        ({
            let exact_times_top = (top - alpha) * top + alpha * channel;
            let distance_times_top = composite(channel, alpha, top) * top - exact_times_top;
            -(top as int) <= 2 * distance_times_top <= top
        }),
{
    let n = (2 * alpha * channel + top) as int;
    let d = (2 * top) as int;
    let q = n / d;
    assert(n == q * d + n % d && 0 <= n % d < d) by (nonlinear_arith)
        requires
            d > 0,
            q == n / d,
    ;
    assert(2 * alpha * channel <= 2 * alpha * top) by (nonlinear_arith)
        requires
            channel <= top,
    ;
    assert(q <= alpha) by (nonlinear_arith)
        requires
            n == q * d + n % d,
            0 <= n % d,
            n <= 2 * alpha * top + top,
            d == 2 * top,
            top > 0,
    ;
    let out = composite(channel, alpha, top) as int;
    assert(out * top - ((top - alpha) * top + alpha * channel) == q * top - alpha * channel)
        by (nonlinear_arith)
        requires
            out == top - alpha + q,
    ;
    assert(2 * (q * top) == q * d) by (nonlinear_arith)
        requires
            d == 2 * top,
    ;
    assert(2 * (alpha * channel) == 2 * alpha * channel) by (nonlinear_arith);
}

/// Under full alpha a sample shows as it is.
pub proof fn lemma_composite_opaque(channel: nat, top: nat)
    requires
        top > 0,
        channel <= top,
    ensures
        composite(channel, top, top) == channel,
{
    let n = (2 * top * channel + top) as int;
    let d = (2 * top) as int;
    assert(n == channel * d + top) by (nonlinear_arith)
        requires
            n == 2 * top * channel + top,
            d == 2 * top,
    ;
    vstd::arithmetic::div_mod::lemma_fundamental_div_mod_converse(n, d, channel as int, top as int);
}

/// Under no alpha a sample shows the white behind it.
pub proof fn lemma_composite_transparent(channel: nat, top: nat)
    requires
        top > 0,
    ensures
        composite(channel, 0, top) == top,
{
    let d = (2 * top) as int;
    assert(2 * 0 * channel + top == top) by (nonlinear_arith);
    vstd::arithmetic::div_mod::lemma_fundamental_div_mod_converse(top as int, d, 0, top as int);
}

/// A kind of sample: an unsigned whole number of a fixed width.
pub trait Sample: Copy {
    /// The sample as a number.
    spec fn level(self) -> nat;

    /// The largest number that a sample of this kind can be.
    spec fn top() -> nat;

    /// No sample exceeds the largest, and the largest fits in sixteen bits.
    proof fn lemma_level_in_range(self)
        ensures
            self.level() <= Self::top(),
            0 < Self::top() <= 0xffff,
    ;

    /// The largest sample of this kind.
    fn max_value() -> (m: Self)
        ensures
            m.level() == Self::top(),
    ;

    /// The sample as a number.
    fn to_level(self) -> (v: u64)
        ensures
            v == self.level(),
    ;

    /// The sample that is the number `v`.
    fn from_level(v: u64) -> (s: Self)
        requires
            v <= Self::top(),
        ensures
            s.level() == v,
    ;
}

/// `num::traits::bounds::UpperBounded::max_value` at `u8`: the largest `u8`,
/// 255.
#[verifier::external_body]
fn upper_bound_u8() -> (m: u8)
    ensures
        m == 255,
{
    let m: u8 = num::traits::bounds::UpperBounded::max_value();
    m
}

/// `num::traits::bounds::UpperBounded::max_value` at `u16`: the largest
/// `u16`, 65535.
#[verifier::external_body]
fn upper_bound_u16() -> (m: u16)
    ensures
        m == 65535,
{
    let m: u16 = num::traits::bounds::UpperBounded::max_value();
    m
}

impl Sample for u8 {
    open spec fn level(self) -> nat {
        self as nat
    }

    open spec fn top() -> nat {
        255
    }

    proof fn lemma_level_in_range(self) {
    }

    fn max_value() -> (m: Self) {
        upper_bound_u8()
    }

    fn to_level(self) -> (v: u64) {
        self as u64
    }

    fn from_level(v: u64) -> (s: Self) {
        v as u8
    }
}

impl Sample for u16 {
    open spec fn level(self) -> nat {
        self as nat
    }

    open spec fn top() -> nat {
        65535
    }

    proof fn lemma_level_in_range(self) {
    }

    fn max_value() -> (m: Self) {
        upper_bound_u16()
    }

    fn to_level(self) -> (v: u64) {
        self as u64
    }

    fn from_level(v: u64) -> (s: Self) {
        v as u16
    }
}

/// The samples of `s` as numbers.
pub open spec fn levels<T: Sample>(s: Seq<T>) -> Seq<nat> {
    Seq::new(s.len(), |i: int| s[i].level())
}

/// Composites the colour sample `channel` under `alpha` over white.
fn composite_sample<T: Sample>(channel: T, alpha: u64, top: u64) -> (r: T)
    requires
        top == T::top(),
        alpha <= top,
    ensures
        r.level() == composite(channel.level(), alpha as nat, top as nat),
{
    let c = channel.to_level();
    proof {
        channel.lemma_level_in_range();
        lemma_composite_is_nearest(c as nat, alpha as nat, top as nat);
        assert(2 * alpha * c <= 2 * 0xffff * 0xffff) by (nonlinear_arith)
            requires
                alpha <= 0xffff,
                c <= 0xffff,
        ;
    }
    T::from_level(top - alpha + (2 * alpha * c + top) / (2 * top))
}

/// Removes the alpha channel from samples that come four to a pixel: the
/// three colour samples of each pixel are composited over white under the
/// pixel's alpha sample, which is dropped.
pub fn remove_alpha_from_4_channel<T: Sample>(image_data: Vec<T>) -> (r: Vec<T>)
    requires
        image_data@.len() % 4 == 0,
    ensures
        levels(r@) == flattened_samples(levels(image_data@), T::top()),
        r@.len() == image_data@.len() / 4 * 3,
{
    let top = T::max_value().to_level();
    let n = image_data.len();
    let mut out: Vec<T> = Vec::new();
    let mut i: usize = 0;
    while i < n
        invariant
            n == image_data@.len(),
            n % 4 == 0,
            i % 4 == 0,
            i <= n,
            top == T::top(),
            out@.len() == i / 4 * 3,
            forall|j: int|
                0 <= j < out@.len() ==> (#[trigger] out@[j]).level() == composite(
                    image_data@[j / 3 * 4 + j % 3].level(),
                    image_data@[j / 3 * 4 + 3].level(),
                    top as nat,
                ),
        decreases n - i,
    {
        let alpha = image_data[i + 3].to_level();
        proof {
            image_data@[i + 3].lemma_level_in_range();
        }
        let first = composite_sample(image_data[i], alpha, top);
        let second = composite_sample(image_data[i + 1], alpha, top);
        let third = composite_sample(image_data[i + 2], alpha, top);
        out.push(first);
        out.push(second);
        out.push(third);
        i += 4;
    }
    out
}

/// How the bytes of a pixel buffer are laid out: the number of samples to a
/// pixel and the number of bits to a sample.
#[derive(Debug, Clone, Copy, PartialEq, Eq, Structural)]
pub struct ColorLayout {
    pub channels: u8,
    pub bits_per_channel: u8,
}

impl ColorLayout {
    /// The number of bytes that one pixel takes.
    pub open spec fn bytes_per_pixel(self) -> nat {
        (self.channels as nat) * (self.bits_per_channel as nat / 8)
    }

    /// Whether a buffer of `len` bytes holds whole pixels of this layout.
    pub open spec fn fits(self, len: nat) -> bool {
        self.bytes_per_pixel() > 0 && len % self.bytes_per_pixel() == 0
    }

    /// Whether a pixel of this layout has an alpha sample that can be
    /// removed: it has four samples of eight or of sixteen bits.
    pub open spec fn has_alpha(self) -> bool {
        self.channels == 4 && (self.bits_per_channel == 8 || self.bits_per_channel == 16)
    }

    /// The layout after the alpha sample is removed, where there is one.
    pub open spec fn without_alpha(self) -> ColorLayout {
        if self.has_alpha() {
            ColorLayout { channels: 3, bits_per_channel: self.bits_per_channel }
        } else {
            self
        }
    }
}

/// The samples that `bytes` hold at eight bits to a sample.
pub open spec fn samples_of_bytes(bytes: Seq<u8>) -> Seq<nat> {
    Seq::new(bytes.len(), |i: int| bytes[i] as nat)
}

/// The samples that `bytes` hold at sixteen bits to a sample, the more
/// significant byte of each sample first.
pub open spec fn samples_of_byte_pairs(bytes: Seq<u8>) -> Seq<nat> {
    Seq::new(bytes.len() / 2, |i: int| (bytes[2 * i] as nat) * 256 + bytes[2 * i + 1] as nat)
}

/// The bytes that hold `samples` at eight bits to a sample.
pub open spec fn bytes_of_samples(samples: Seq<nat>) -> Seq<u8> {
    Seq::new(samples.len(), |i: int| samples[i] as u8)
}

/// The bytes that hold `samples` at sixteen bits to a sample, the more
/// significant byte of each sample first.
pub open spec fn byte_pairs_of_samples(samples: Seq<nat>) -> Seq<u8> {
    Seq::new(
        2 * samples.len(),
        |i: int|
            if i % 2 == 0 {
                (samples[i / 2] / 256) as u8
            } else {
                (samples[i / 2] % 256) as u8
            },
    )
}

/// The bytes of an image of layout `layout` after its alpha channel is
/// removed; the same bytes where the layout has no alpha channel to remove.
pub open spec fn flattened_bytes(bytes: Seq<u8>, layout: ColorLayout) -> Seq<u8> {
    if !layout.has_alpha() {
        bytes
    } else if layout.bits_per_channel == 8 {
        bytes_of_samples(flattened_samples(samples_of_bytes(bytes), 255))
    } else {
        byte_pairs_of_samples(flattened_samples(samples_of_byte_pairs(bytes), 65535))
    }
}

/// The layout of pixels of red, green, blue and alpha at eight bits each.
pub open spec fn rgba8() -> ColorLayout {
    ColorLayout { channels: 4, bits_per_channel: 8 }
}

/// The layout of pixels of red, green, blue and alpha at sixteen bits each.
pub open spec fn rgba16() -> ColorLayout {
    ColorLayout { channels: 4, bits_per_channel: 16 }
}

/// A pixel under full alpha keeps its three colour samples; a pixel under
/// no alpha turns white. `pixel` counts pixels and `channel` is 0, 1 or 2.
pub proof fn lemma_flattened_sample(samples: Seq<nat>, top: nat, pixel: int, channel: int)
    requires
        top > 0,
        0 <= pixel < samples.len() / 4,
        0 <= channel < 3,
        samples[4 * pixel + channel] <= top,
    ensures
        3 * pixel + channel < flattened_samples(samples, top).len(),
        flattened_samples(samples, top)[3 * pixel + channel] == composite(
            samples[4 * pixel + channel],
            samples[4 * pixel + 3],
            top,
        ),
        samples[4 * pixel + 3] == top ==> flattened_samples(samples, top)[3 * pixel + channel]
            == samples[4 * pixel + channel],
        samples[4 * pixel + 3] == 0 ==> flattened_samples(samples, top)[3 * pixel + channel] == top,
{
    lemma_composite_opaque(samples[4 * pixel + channel], top);
    lemma_composite_transparent(samples[4 * pixel + channel], top);
}

/// Flattening an image of eight-bit pixels that are all under full alpha
/// leaves the three colour bytes of every pixel as they were.
pub proof fn lemma_flatten_opaque_rgba8(bytes: Seq<u8>)
    requires
        bytes.len() % 4 == 0,
        forall|p: int| 0 <= p < bytes.len() / 4 ==> #[trigger] bytes[4 * p + 3] == 255,
    ensures
        flattened_bytes(bytes, rgba8()).len() == bytes.len() / 4 * 3,
        forall|p: int, k: int|
            0 <= p < bytes.len() / 4 && 0 <= k < 3 ==> #[trigger] flattened_bytes(
                bytes,
                rgba8(),
            )[3 * p + k] == bytes[4 * p + k],
{
    let samples = samples_of_bytes(bytes);
    let out = flattened_bytes(bytes, rgba8());
    assert forall|p: int, k: int| 0 <= p < bytes.len() / 4 && 0 <= k < 3 implies #[trigger] out[3
        * p + k] == bytes[4 * p + k] by {
        lemma_flattened_sample(samples, 255, p, k);
    }
}

/// Flattening an image of eight-bit pixels that are all under no alpha
/// gives white throughout, whatever the colours were.
pub proof fn lemma_flatten_transparent_rgba8(bytes: Seq<u8>)
    requires
        bytes.len() % 4 == 0,
        forall|p: int| 0 <= p < bytes.len() / 4 ==> #[trigger] bytes[4 * p + 3] == 0,
    ensures
        flattened_bytes(bytes, rgba8()).len() == bytes.len() / 4 * 3,
        forall|j: int|
            0 <= j < bytes.len() / 4 * 3 ==> #[trigger] flattened_bytes(bytes, rgba8())[j] == 255,
{
    let samples = samples_of_bytes(bytes);
    let out = flattened_bytes(bytes, rgba8());
    assert forall|j: int| 0 <= j < bytes.len() / 4 * 3 implies #[trigger] out[j] == 255 by {
        let p = j / 3;
        let k = j % 3;
        lemma_flattened_sample(samples, 255, p, k);
    }
}

/// Flattening an image of sixteen-bit pixels that are all under full alpha
/// leaves the six colour bytes of every pixel as they were.
pub proof fn lemma_flatten_opaque_rgba16(bytes: Seq<u8>)
    requires
        bytes.len() % 8 == 0,
        forall|p: int|
            0 <= p < bytes.len() / 8 ==> #[trigger] bytes[8 * p + 6] == 255 && bytes[8 * p + 7]
                == 255,
    ensures
        flattened_bytes(bytes, rgba16()).len() == bytes.len() / 8 * 6,
        forall|p: int, k: int|
            0 <= p < bytes.len() / 8 && 0 <= k < 6 ==> #[trigger] flattened_bytes(
                bytes,
                rgba16(),
            )[6 * p + k] == bytes[8 * p + k],
{
    let samples = samples_of_byte_pairs(bytes);
    let out = flattened_bytes(bytes, rgba16());
    assert forall|p: int, k: int| 0 <= p < bytes.len() / 8 && 0 <= k < 6 implies #[trigger] out[6
        * p + k] == bytes[8 * p + k] by {
        let c = k / 2;
        assert(bytes[8 * p + 6] == 255 && bytes[8 * p + 7] == 255);
        assert(samples[4 * p + 3] == 65535);
        assert(samples[4 * p + c] == (bytes[8 * p + 2 * c] as nat) * 256 + bytes[8 * p + 2 * c
            + 1] as nat);
        lemma_flattened_sample(samples, 65535, p, c);
        assert((6 * p + k) / 2 == 3 * p + c);
    }
}

/// Flattening an image of sixteen-bit pixels that are all under no alpha
/// gives white throughout, whatever the colours were.
pub proof fn lemma_flatten_transparent_rgba16(bytes: Seq<u8>)
    requires
        bytes.len() % 8 == 0,
        forall|p: int|
            0 <= p < bytes.len() / 8 ==> #[trigger] bytes[8 * p + 6] == 0 && bytes[8 * p + 7] == 0,
    ensures
        flattened_bytes(bytes, rgba16()).len() == bytes.len() / 8 * 6,
        forall|j: int|
            0 <= j < bytes.len() / 8 * 6 ==> #[trigger] flattened_bytes(bytes, rgba16())[j] == 255,
{
    let samples = samples_of_byte_pairs(bytes);
    let out = flattened_bytes(bytes, rgba16());
    assert forall|j: int| 0 <= j < bytes.len() / 8 * 6 implies #[trigger] out[j] == 255 by {
        let p = j / 6;
        let c = (j % 6) / 2;
        assert(0 <= p < bytes.len() / 8);
        assert(bytes[8 * p + 6] == 0);
        assert(bytes[8 * p + 7] == 0);
        assert(samples[4 * p + 3] == 0);
        assert(samples[4 * p + c] <= 65535);
        lemma_flattened_sample(samples, 65535, p, c);
        assert(j / 2 == 3 * p + c);
    }
}

/// Flattening an image whose layout has no alpha channel of eight or sixteen
/// bits changes neither its bytes nor its layout.
pub proof fn lemma_flatten_keeps_other_layouts(bytes: Seq<u8>, layout: ColorLayout)
    requires
        !layout.has_alpha(),
    ensures
        flattened_bytes(bytes, layout) == bytes,
        layout.without_alpha() == layout,
{
}

/// The samples of an image as bytes, with their layout. A buffer always
/// holds whole pixels: its length is a multiple of the number of bytes that
/// one pixel takes.
#[derive(Debug)]
pub struct PixelBuffer {
    data: Vec<u8>,
    layout: ColorLayout,
}

/// Reads `bytes` as sixteen-bit samples.
fn decode_pairs(bytes: &Vec<u8>) -> (r: Vec<u16>)
    requires
        bytes@.len() % 2 == 0,
    ensures
        levels(r@) == samples_of_byte_pairs(bytes@),
        r@.len() == bytes@.len() / 2,
{
    let n = bytes.len();
    let mut out: Vec<u16> = Vec::new();
    let mut i: usize = 0;
    while i < n
        invariant
            n == bytes@.len(),
            n % 2 == 0,
            i % 2 == 0,
            i <= n,
            out@.len() == i / 2,
            forall|j: int|
                0 <= j < out@.len() ==> (#[trigger] out@[j]) as nat == (bytes@[2 * j] as nat) * 256
                    + bytes@[2 * j + 1] as nat,
        decreases n - i,
    {
        out.push((bytes[i] as u16) * 256 + (bytes[i + 1] as u16));
        i += 2;
    }
    out
}

/// Writes sixteen-bit samples as bytes.
fn encode_pairs(samples: &Vec<u16>) -> (r: Vec<u8>)
    ensures
        r@ == byte_pairs_of_samples(levels(samples@)),
        r@.len() == 2 * samples@.len(),
{
    let n = samples.len();
    let mut out: Vec<u8> = Vec::new();
    let mut i: usize = 0;
    while i < n
        invariant
            n == samples@.len(),
            i <= n,
            out@.len() == 2 * i,
            forall|j: int|
                0 <= j < out@.len() ==> #[trigger] out@[j] == (if j % 2 == 0 {
                    (samples@[j / 2] / 256) as u8
                } else {
                    (samples@[j / 2] % 256) as u8
                }),
        decreases n - i,
    {
        let sample = samples[i];
        out.push((sample / 256) as u8);
        out.push((sample % 256) as u8);
        i += 1;
    }
    out
}

/// Removes the alpha channel from the bytes of an image of layout `layout`.
fn flatten_bytes(data: Vec<u8>, layout: ColorLayout) -> (r: Vec<u8>)
    requires
        layout.fits(data@.len()),
    ensures
        r@ == flattened_bytes(data@, layout),
        layout.without_alpha().fits(r@.len()),
{
    if layout.channels != 4 {
        return data;
    }
    if layout.bits_per_channel == 8 {
        assert(layout.without_alpha().bytes_per_pixel() == 3);
        let out = remove_alpha_from_4_channel(data);
        proof {
            assert(out@ =~= bytes_of_samples(levels(out@)));
        }
        out
    } else if layout.bits_per_channel == 16 {
        assert(layout.bytes_per_pixel() == 8);
        assert(layout.without_alpha().bytes_per_pixel() == 6);
        let wide = decode_pairs(&data);
        let out = remove_alpha_from_4_channel(wide);
        encode_pairs(&out)
    } else {
        data
    }
}

impl PixelBuffer {
    #[verifier::type_invariant]
    spec fn holds_whole_pixels(self) -> bool {
        self.layout.fits(self.data@.len())
    }

    /// The bytes of the buffer.
    pub closed spec fn bytes(self) -> Seq<u8> {
        self.data@
    }

    /// The layout of the buffer.
    pub closed spec fn color_layout(self) -> ColorLayout {
        self.layout
    }

    /// Makes a buffer of `data` laid out as `layout` says; `None` when `data`
    /// does not hold whole pixels of that layout.
    pub fn new(data: Vec<u8>, layout: ColorLayout) -> (r: Option<PixelBuffer>)
        ensures
            r is Some <==> layout.fits(data@.len()),
            r is Some ==> r->0.bytes() == data@ && r->0.color_layout() == layout,
    {
        let samples = layout.channels as usize;
        let bytes_per_sample = (layout.bits_per_channel / 8) as usize;
        assert(samples * bytes_per_sample <= 255 * 31) by (nonlinear_arith)
            requires
                samples <= 255,
                bytes_per_sample <= 31,
        ;
        let pixel: usize = samples * bytes_per_sample;
        if pixel == 0 || data.len() % pixel != 0 {
            None
        } else {
            Some(PixelBuffer { data, layout })
        }
    }

    /// The bytes of the buffer.
    pub fn data(&self) -> (r: &Vec<u8>)
        ensures
            r@ == self.bytes(),
            self.color_layout().fits(r@.len()),
    {
        proof {
            use_type_invariant(self);
        }
        &self.data
    }

    /// The layout of the buffer.
    pub fn layout(&self) -> (r: ColorLayout)
        ensures
            r == self.color_layout(),
    {
        self.layout
    }

    /// Gives the bytes of the buffer up.
    pub fn into_data(self) -> (r: Vec<u8>)
        ensures
            r@ == self.bytes(),
            self.color_layout().fits(r@.len()),
    {
        proof {
            use_type_invariant(&self);
        }
        self.data
    }
}

/// Removes the alpha channel of `buffer`: every pixel is composited over
/// white, and the layout loses its fourth channel. A buffer whose layout has
/// no alpha channel of eight or sixteen bits is handed back as it is.
pub fn flatten(buffer: PixelBuffer) -> (r: PixelBuffer)
    ensures
        r.bytes() == flattened_bytes(buffer.bytes(), buffer.color_layout()),
        r.color_layout() == buffer.color_layout().without_alpha(),
{
    proof {
        use_type_invariant(&buffer);
    }
    let layout = buffer.layout;
    let data = flatten_bytes(buffer.data, layout);
    if layout.channels == 4 && (layout.bits_per_channel == 8 || layout.bits_per_channel == 16) {
        let layout = ColorLayout { channels: 3, bits_per_channel: layout.bits_per_channel };
        PixelBuffer { data, layout }
    } else {
        PixelBuffer { data, layout }
    }
}

/// Images whose transparency can be removed in place.
pub trait RemoveAlpha {
    /// Whether `self` is `before` with its transparency removed.
    spec fn is_flattening_of(&self, before: &Self) -> bool;

    /// Removes the transparency of `self`.
    fn remove_alpha(&mut self)
        ensures
            final(self).is_flattening_of(old(self)),
    ;
}

impl RemoveAlpha for PixelBuffer {
    open spec fn is_flattening_of(&self, before: &Self) -> bool {
        &&& self.bytes() == flattened_bytes(before.bytes(), before.color_layout())
        &&& self.color_layout() == before.color_layout().without_alpha()
    }

    fn remove_alpha(&mut self) {
        proof {
            use_type_invariant(&*self);
        }
        let mut taken: Vec<u8> = Vec::new();
        core::mem::swap(&mut taken, &mut self.data);
        let whole = PixelBuffer { data: taken, layout: self.layout };
        *self = flatten(whole);
    }
}

} // verus!
