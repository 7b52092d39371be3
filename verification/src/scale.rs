//! Scale specifications and the resizer.
//!
//! A scale specification is written `W:H`, where each side is a number or
//! `_` for "not given"; a single field stands for both sides.

use crate::decimal::{parse_u32, read_u32};
use crate::raster::{rectangular, GrayImage, MAX_RESAMPLE_SIDE};
use crate::text::texts;
use image::imageops::FilterType;
use vstd::prelude::*;

verus! {

/// The target width and height of a resize, each of them optional.
#[derive(Clone, Copy, Debug, PartialEq, Eq)]
pub struct Scaler(pub Option<u32>, pub Option<u32>);

/// Why a scale specification was rejected.
#[derive(Clone, Copy, Debug, PartialEq, Eq, Structural)]
pub enum ScaleError {
    /// A field is neither `_` nor a number that fits in 32 bits.
    InvalidNumber,
    /// There are more than two fields.
    TooManyFields,
}

/// The fields of a text: its pieces between the colons. A text without a
/// colon is one field, and so is the empty text.
pub open spec fn split_fields(text: Seq<char>) -> Seq<Seq<char>>
    decreases text.len(),
{
    if text.len() == 0 {
        seq![Seq::<char>::empty()]
    } else {
        let before = split_fields(text.drop_last());
        if text.last() == ':' {
            before.push(Seq::<char>::empty())
        } else {
            before.drop_last().push(before.last().push(text.last()))
        }
    }
}

/// What a field asks for: nothing for a malformed field, else the dimension,
/// which `_` leaves open.
pub open spec fn field_value(field: Seq<char>) -> Option<Option<u32>> {
    if field == seq!['_'] {
        Some(None)
    } else {
        match parse_u32(field) {
            Some(n) => Some(Some(n)),
            None => None,
        }
    }
}

/// Whether some field is malformed.
pub open spec fn has_malformed_field(fields: Seq<Seq<char>>) -> bool {
    exists|i: int| 0 <= i < fields.len() && field_value(#[trigger] fields[i]) is None
}

/// What a scale specification means. A malformed field is reported before a
/// wrong number of fields.
pub open spec fn parse_scale(text: Seq<char>) -> Result<Scaler, ScaleError> {
    let fields = split_fields(text);
    if has_malformed_field(fields) {
        Err(ScaleError::InvalidNumber)
    } else if fields.len() == 1 {
        Ok(Scaler(field_value(fields[0]).unwrap(), field_value(fields[0]).unwrap()))
    } else if fields.len() == 2 {
        Ok(Scaler(field_value(fields[0]).unwrap(), field_value(fields[1]).unwrap()))
    } else {
        Err(ScaleError::TooManyFields)
    }
}

/// Splits a text at its colons.
pub fn split(text: &str) -> (fields: Vec<Vec<char>>)
    ensures
        texts(fields@) == split_fields(text@),
{
    let mut fields: Vec<Vec<char>> = Vec::new();
    let mut current: Vec<char> = Vec::new();
    let count: usize = text.unicode_len();
    let mut at: usize = 0;
    assert(text@.take(0) =~= Seq::<char>::empty());
    assert(texts(fields@).push(current@) =~= split_fields(text@.take(0)));
    while at < count
        invariant
            at <= count,
            count == text@.len(),
            texts(fields@).push(current@) == split_fields(text@.take(at as int)),
        decreases count - at,
    {
        let c: char = text.get_char(at);
        let ghost seen = text@.take(at + 1);
        assert(seen.drop_last() =~= text@.take(at as int));
        assert(seen.last() == c);
        let ghost before = texts(fields@).push(current@);
        if c == ':' {
            fields.push(current);
            current = Vec::new();
            assert(texts(fields@) =~= before);
        } else {
            current.push(c);
            assert(texts(fields@).push(current@) =~= before.drop_last().push(
                before.last().push(c),
            ));
        }
        at = at + 1;
    }
    assert(text@.take(at as int) =~= text@);
    let ghost done = texts(fields@).push(current@);
    fields.push(current);
    assert(texts(fields@) =~= done);
    fields
}

/// Reads one field of a scale specification.
pub fn read_field(field: &Vec<char>) -> (value: Option<Option<u32>>)
    ensures
        value == field_value(field@),
{
    if field.len() == 1 && field[0] == '_' {
        assert(field@ =~= seq!['_']);
        Some(None)
    } else {
        assert(field@ != seq!['_']) by {
            if field@ == seq!['_'] {
                assert(seq!['_'].len() == 1);
                assert(seq!['_'][0] == '_');
            }
        }
        match read_u32(field) {
            Some(n) => Some(Some(n)),
            None => None,
        }
    }
}

/// The dimension that keeps the aspect ratio of the source when the other
/// one is given: `given * (source_other / source_given)`, rounded down and
/// capped at what 32 bits hold. A source without extent along the given
/// dimension has no ratio: the result is then the cap if both numbers to
/// multiply are positive, and zero if not.
pub open spec fn proportional(given: nat, source_given: nat, source_other: nat) -> nat {
    if source_given == 0 {
        if given > 0 && source_other > 0 {
            u32::MAX as nat
        } else {
            0
        }
    } else if given * source_other / source_given > u32::MAX {
        u32::MAX as nat
    } else {
        given * source_other / source_given
    }
}

/// Where the proportional dimension is not capped, it keeps the aspect
/// ratio of the source to within one pixel: it is the largest whole number
/// that does not exceed the exact proportion.
pub proof fn proportional_keeps_aspect(given: nat, source_given: nat, source_other: nat)
    requires
        source_given > 0,
        given * source_other / source_given <= u32::MAX,
    ensures
        proportional(given, source_given, source_other) * source_given <= given * source_other,
        given * source_other < (proportional(given, source_given, source_other) + 1)
            * source_given,
{
    let exact = given * source_other;
    let other = exact / source_given;
    assert(other * source_given <= exact < (other + 1) * source_given) by (nonlinear_arith)
        requires
            source_given > 0,
            exact >= 0,
            other == exact / source_given,
    ;
}

/// Whether a raster of the given size can be resampled to the new size.
/// No side, old or new, may exceed `MAX_RESAMPLE_SIDE`: beyond it the
/// positions that `image::imageops::resize` computes in floating point lose
/// the precision that its weights need. And the function must be able to
/// allocate a buffer of four 32-bit floats for each pixel of the source
/// columns at the new height, and the result.
pub open spec fn resample_fits(width: nat, height: nat, new_width: nat, new_height: nat) -> bool {
    &&& width <= MAX_RESAMPLE_SIDE
    &&& height <= MAX_RESAMPLE_SIDE
    &&& new_width <= MAX_RESAMPLE_SIDE
    &&& new_height <= MAX_RESAMPLE_SIDE
    &&& 16 * (width * new_height) <= isize::MAX
    &&& new_width * new_height <= isize::MAX
}

/// Computes the dimension that keeps the aspect ratio of the source.
pub fn proportional_dimension(given: u32, source_given: u32, source_other: u32) -> (other: u32)
    ensures
        other == proportional(given as nat, source_given as nat, source_other as nat),
{
    if source_given == 0 {
        if given > 0 && source_other > 0 {
            u32::MAX
        } else {
            0
        }
    } else {
        assert(given * source_other <= u32::MAX * u32::MAX) by (nonlinear_arith)
            requires
                0 <= given <= u32::MAX,
                0 <= source_other <= u32::MAX,
        ;
        let exact: u64 = (given as u64) * (source_other as u64) / (source_given as u64);
        if exact > u32::MAX as u64 {
            u32::MAX
        } else {
            exact as u32
        }
    }
}

/// Copies a raster pixel for pixel.
pub fn copy_of(image: &GrayImage) -> (copy: GrayImage)
    ensures
        copy.wf(),
        copy.packed(),
        copy.spec_width() == image.spec_width(),
        copy.rows() == image.rows(),
{
    let (width, height) = image.dimensions();
    let mut copy = GrayImage::blank(width, height);
    let mut y: u32 = 0;
    while y < height
        invariant
            y <= height,
            width == image.spec_width(),
            height == image.spec_height(),
            rectangular(image.rows(), width as nat),
            copy.spec_width() == width,
            copy.spec_height() == height,
            copy.buffer_len() == width * height,
            rectangular(copy.rows(), width as nat),
            forall|j: int| 0 <= j < y ==> #[trigger] copy.rows()[j] == image.rows()[j],
        decreases height - y,
    {
        let mut x: u32 = 0;
        while x < width
            invariant
                x <= width,
                y < height,
                width == image.spec_width(),
                height == image.spec_height(),
                rectangular(image.rows(), width as nat),
                copy.spec_width() == width,
                copy.spec_height() == height,
                copy.buffer_len() == width * height,
                rectangular(copy.rows(), width as nat),
                forall|j: int| 0 <= j < y ==> #[trigger] copy.rows()[j] == image.rows()[j],
                forall|i: int|
                    0 <= i < x ==> #[trigger] copy.rows()[y as int][i] == image.rows()[y as int][i],
            decreases width - x,
        {
            let value: u8 = image.sample(x, y);
            copy.set_sample(x, y, value);
            x = x + 1;
        }
        assert(copy.rows()[y as int] =~= image.rows()[y as int]);
        y = y + 1;
    }
    assert(copy.rows() =~= image.rows());
    copy
}

impl Scaler {
    /// Parses a scale specification: `100` is 100 by 100, `100:_` leaves the
    /// height open, `_:50` the width.
    pub fn parse(scale: &str) -> (parsed: Result<Scaler, ScaleError>)
        ensures
            parsed == parse_scale(scale@),
    {
        let fields = split(scale);
        let ghost wanted = split_fields(scale@);
        let mut sizes: Vec<Option<u32>> = Vec::new();
        let mut at: usize = 0;
        while at < fields.len()
            invariant
                at <= fields.len(),
                texts(fields@) == wanted,
                wanted == split_fields(scale@),
                sizes.len() == at,
                forall|i: int|
                    0 <= i < at ==> field_value(#[trigger] wanted[i]) == Some(sizes[i]),
            decreases fields.len() - at,
        {
            assert(texts(fields@)[at as int] == fields[at as int]@);
            match read_field(&fields[at]) {
                Some(size) => {
                    sizes.push(size);
                },
                None => {
                    assert(has_malformed_field(wanted));
                    return Err(ScaleError::InvalidNumber);
                },
            }
            at = at + 1;
        }
        assert(texts(fields@).len() == fields.len());
        assert(!has_malformed_field(wanted));
        if sizes.len() == 1 {
            Ok(Scaler(sizes[0], sizes[0]))
        } else if sizes.len() == 2 {
            Ok(Scaler(sizes[0], sizes[1]))
        } else {
            Err(ScaleError::TooManyFields)
        }
    }

    /// The size that this specification asks of a raster of the given size:
    /// both dimensions as given; or the given one and the other in
    /// proportion; or, with neither given, the size of the raster.
    pub open spec fn target(&self, width: nat, height: nat) -> (nat, nat) {
        match (self.0, self.1) {
            (Some(w), Some(h)) => (w as nat, h as nat),
            (Some(w), None) => (w as nat, proportional(w as nat, width, height)),
            (None, Some(h)) => (proportional(h as nat, height, width), h as nat),
            (None, None) => (width, height),
        }
    }

    /// With exactly one dimension given, the target keeps the aspect ratio
    /// of the raster to within one pixel: the dimension that was left open
    /// is the largest whole number that does not exceed the exact
    /// proportion. This holds where there is a ratio to keep, the raster
    /// having extent along the given dimension, and where the open
    /// dimension is not capped at what 32 bits hold.
    pub proof fn target_keeps_aspect(&self, width: nat, height: nat)
        requires
            self.0 is Some != self.1 is Some,
            self.0 matches Some(w) ==> width > 0 && (w as nat) * height / width <= u32::MAX,
            self.1 matches Some(h) ==> height > 0 && (h as nat) * width / height <= u32::MAX,
        ensures
            self.0 is Some ==> {
                let (new_width, new_height) = self.target(width, height);
                new_height * width <= new_width * height < (new_height + 1) * width
            },
            self.1 is Some ==> {
                let (new_width, new_height) = self.target(width, height);
                new_width * height <= new_height * width < (new_width + 1) * height
            },
    {
        match (self.0, self.1) {
            (Some(w), None) => {
                proportional_keeps_aspect(w as nat, width, height);
            },
            (None, Some(h)) => {
                proportional_keeps_aspect(h as nat, height, width);
            },
            _ => {},
        }
    }

    /// Whether this specification leaves the raster as it is.
    pub open spec fn is_identity(&self) -> bool {
        self.0 is None && self.1 is None
    }

    /// Whether a raster of the given size can be brought to the target size:
    /// always when there is nothing to resample, else when no side is too
    /// long and the resampling buffers fit in memory.
    pub open spec fn feasible(&self, width: nat, height: nat) -> bool {
        let (new_width, new_height) = self.target(width, height);
        self.is_identity() || (new_width == width && new_height == height) || resample_fits(
            width,
            height,
            new_width,
            new_height,
        )
    }

    /// Resizes a raster to the target size with the given kernel. With no
    /// dimension given the raster is copied without resampling, and a
    /// resize to the size that the raster has keeps every sample. Nothing is
    /// returned when the raster or the target is too large to resample.
    pub fn scale(&self, image: &GrayImage, filter: FilterType) -> (scaled: Option<GrayImage>)
        ensures
            scaled is Some <==> self.feasible(image.spec_width(), image.spec_height()),
            scaled matches Some(out) ==> {
                let (new_width, new_height) = self.target(
                    image.spec_width(),
                    image.spec_height(),
                );
                &&& out.wf()
                &&& out.packed()
                &&& out.spec_width() == new_width
                &&& out.spec_height() == new_height
                &&& new_width == image.spec_width() && new_height == image.spec_height()
                    ==> out.rows() == image.rows()
                &&& self.is_identity() ==> out.spec_width() == image.spec_width() && out.rows()
                    == image.rows()
            },
    {
        let (width, height) = image.dimensions();
        let (new_width, new_height): (u32, u32) = match (self.0, self.1) {
            (Some(w), Some(h)) => (w, h),
            (Some(w), None) => (w, proportional_dimension(w, width, height)),
            (None, Some(h)) => (proportional_dimension(h, height, width), h),
            (None, None) => {
                return Some(copy_of(image));
            },
        };
        assert(width * new_height <= u32::MAX * u32::MAX && new_width * new_height <= u32::MAX
            * u32::MAX) by (nonlinear_arith)
            requires
                0 <= width <= u32::MAX,
                0 <= new_width <= u32::MAX,
                0 <= new_height <= u32::MAX,
        ;
        let columns: u128 = 16 * ((width as u128) * (new_height as u128));
        let pixels: u128 = (new_width as u128) * (new_height as u128);
        let same_size: bool = new_width == width && new_height == height;
        let short_sides: bool = width <= MAX_RESAMPLE_SIDE && height <= MAX_RESAMPLE_SIDE
            && new_width <= MAX_RESAMPLE_SIDE && new_height <= MAX_RESAMPLE_SIDE;
        if same_size || (short_sides && columns <= isize::MAX as u128 && pixels
            <= isize::MAX as u128) {
            let out = image.resampled(new_width, new_height, filter);
            Some(out)
        } else {
            None
        }
    }
}

} // verus!
