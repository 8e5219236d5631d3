//! Host-side arrays: the activation field and the kernel images.
//!
//! Both are `ndarray` arrays of single-precision bit patterns. What an array
//! holds is named by [`field_cells`] and [`image_cells`], its axis lengths by
//! [`field_extents`] and [`image_extents`].

use crate::words::F32Bits;
use vstd::prelude::*;

verus! {

/// An activation field: an `ndarray` array with axes `(y, x, channel)`.
#[verifier::external_body]
pub struct ActivationField {
    array: ndarray::Array3<u32>,
}

/// The element at each index of a field.
pub uninterp spec fn field_cells(f: ActivationField) -> Map<(int, int, int), u32>;

/// The axis lengths of a field: height, width, channels.
pub uninterp spec fn field_extents(f: ActivationField) -> (int, int, int);

/// A kernel image: an `ndarray` array with axes `(y, x)`.
#[verifier::external_body]
pub struct KernelImage {
    array: ndarray::Array2<u32>,
}

/// The element at each index of an image.
pub uninterp spec fn image_cells(k: KernelImage) -> Map<(int, int), u32>;

/// The axis lengths of an image: rows, columns.
pub uninterp spec fn image_extents(k: KernelImage) -> (int, int);

/// The indices of an array with the given axis lengths.
pub open spec fn in_extents3(i: (int, int, int), e: (int, int, int)) -> bool {
    0 <= i.0 < e.0 && 0 <= i.1 < e.1 && 0 <= i.2 < e.2
}

/// The indices of an array with the given axis lengths.
pub open spec fn in_extents2(i: (int, int), e: (int, int)) -> bool {
    0 <= i.0 < e.0 && 0 <= i.1 < e.1
}

/// An axis length as it enters the product that bounds the size of an array:
/// empty axes do not count.
pub open spec fn nonzero(n: int) -> int {
    if n == 0 {
        1
    } else {
        n
    }
}

/// The axis lengths that an array can have at all.
pub open spec fn shape_fits3(e: (int, int, int)) -> bool {
    nonzero(e.0) * nonzero(e.1) * nonzero(e.2) <= isize::MAX
}

/// The axis lengths that an array can have at all.
pub open spec fn shape_fits2(e: (int, int)) -> bool {
    nonzero(e.0) * nonzero(e.1) <= isize::MAX
}

/// Calls `ndarray::Array3::from_elem`, which fills a new array with copies of
/// one value. It panics where the product of the non-empty axis lengths
/// exceeds `isize::MAX`, and its allocation does where the elements take more
/// than `isize::MAX` bytes; both are left out. Claimed: the axis lengths are
/// those given and every index holds `value`.
#[verifier::external_body]
fn array3_from_elem(h: usize, w: usize, c: usize, value: u32) -> (f: ActivationField)
    requires
        shape_fits3((h as int, w as int, c as int)),
        4 * (h * w * c) <= isize::MAX,
    ensures
        field_extents(f) == (h as int, w as int, c as int),
        field_cells(f) == Map::new(
            |i: (int, int, int)| in_extents3(i, (h as int, w as int, c as int)),
            |i: (int, int, int)| value,
        ),
{
    ActivationField { array: ndarray::Array3::from_elem((h, w, c), value) }
}

/// Calls `ndarray::ArrayBase::dim`. Claimed: it returns the axis lengths, every
/// array has an element at each index below them and at no other, and the
/// product of the non-empty ones is at most `isize::MAX`, which `ndarray` holds
/// every array to.
#[verifier::external_body]
fn array3_dim(f: &ActivationField) -> (dim: (usize, usize, usize))
    ensures
        field_extents(*f) == (dim.0 as int, dim.1 as int, dim.2 as int),
        shape_fits3((dim.0 as int, dim.1 as int, dim.2 as int)),
        forall|i: (int, int, int)| #[trigger]
            field_cells(*f).dom().contains(i) <==> in_extents3(
                i,
                (dim.0 as int, dim.1 as int, dim.2 as int),
            ),
{
    f.array.dim()
}

/// Indexes an `ndarray::Array3`, which panics out of bounds. Claimed: the
/// element at that index is returned.
#[verifier::external_body]
fn array3_get(f: &ActivationField, y: usize, x: usize, ci: usize) -> (value: u32)
    requires
        in_extents3((y as int, x as int, ci as int), field_extents(*f)),
    ensures
        value == field_cells(*f)[(y as int, x as int, ci as int)],
{
    f.array[[y, x, ci]]
}

/// Assigns through the mutable index of an `ndarray::Array3`, which panics out
/// of bounds. Claimed: the element at that index becomes `value` and nothing
/// else changes.
#[verifier::external_body]
fn array3_set(f: &mut ActivationField, y: usize, x: usize, ci: usize, value: u32)
    requires
        in_extents3((y as int, x as int, ci as int), field_extents(*old(f))),
    ensures
        field_extents(*final(f)) == field_extents(*old(f)),
        field_cells(*final(f)) == field_cells(*old(f)).insert(
            (y as int, x as int, ci as int),
            value,
        ),
{
    f.array[[y, x, ci]] = value;
}

/// Calls `ndarray::Array2::from_elem`, which fills a new array with copies of
/// one value. It panics where the product of the non-empty axis lengths
/// exceeds `isize::MAX`, and its allocation does where the elements take more
/// than `isize::MAX` bytes; both are left out. Claimed: the axis lengths are
/// those given and every index holds `value`.
#[verifier::external_body]
fn array2_from_elem(rows: usize, cols: usize, value: u32) -> (k: KernelImage)
    requires
        shape_fits2((rows as int, cols as int)),
        4 * (rows * cols) <= isize::MAX,
    ensures
        image_extents(k) == (rows as int, cols as int),
        image_cells(k) == Map::new(
            |i: (int, int)| in_extents2(i, (rows as int, cols as int)),
            |i: (int, int)| value,
        ),
{
    KernelImage { array: ndarray::Array2::from_elem((rows, cols), value) }
}

/// Calls `ndarray::ArrayBase::dim`. Claimed: it returns the axis lengths, every
/// array has an element at each index below them and at no other, and the
/// product of the non-empty ones is at most `isize::MAX`, which `ndarray` holds
/// every array to.
#[verifier::external_body]
fn array2_dim(k: &KernelImage) -> (dim: (usize, usize))
    ensures
        image_extents(*k) == (dim.0 as int, dim.1 as int),
        shape_fits2((dim.0 as int, dim.1 as int)),
        forall|i: (int, int)| #[trigger]
            image_cells(*k).dom().contains(i) <==> in_extents2(i, (dim.0 as int, dim.1 as int)),
{
    k.array.dim()
}

/// Indexes an `ndarray::Array2`, which panics out of bounds. Claimed: the
/// element at that index is returned.
#[verifier::external_body]
fn array2_get(k: &KernelImage, y: usize, x: usize) -> (value: u32)
    requires
        in_extents2((y as int, x as int), image_extents(*k)),
    ensures
        value == image_cells(*k)[(y as int, x as int)],
{
    k.array[[y, x]]
}

/// Assigns through the mutable index of an `ndarray::Array2`, which panics out
/// of bounds. Claimed: the element at that index becomes `value` and nothing
/// else changes.
#[verifier::external_body]
fn array2_set(k: &mut KernelImage, y: usize, x: usize, value: u32)
    requires
        in_extents2((y as int, x as int), image_extents(*old(k))),
    ensures
        image_extents(*final(k)) == image_extents(*old(k)),
        image_cells(*final(k)) == image_cells(*old(k)).insert((y as int, x as int), value),
{
    k.array[[y, x]] = value;
}

impl ActivationField {
    /// Height of the field.
    pub open spec fn h(self) -> int {
        field_extents(self).0
    }

    /// Width of the field.
    pub open spec fn w(self) -> int {
        field_extents(self).1
    }

    /// Number of channels.
    pub open spec fn c(self) -> int {
        field_extents(self).2
    }

    /// The element at row `y`, column `x`, channel `ci`.
    pub open spec fn at(self, y: int, x: int, ci: int) -> u32 {
        field_cells(self)[(y, x, ci)]
    }

    /// A field of the given shape that is zero everywhere.
    pub fn zeros(h: usize, w: usize, c: usize) -> (f: ActivationField)
        requires
            shape_fits3((h as int, w as int, c as int)),
            4 * (h * w * c) <= isize::MAX,
        ensures
            field_extents(f) == (h as int, w as int, c as int),
            field_cells(f) == Map::new(
                |i: (int, int, int)| in_extents3(i, (h as int, w as int, c as int)),
                |i: (int, int, int)| 0u32,
            ),
    {
        array3_from_elem(h, w, c, 0)
    }

    /// The axis lengths: height, width, channels.
    pub fn dim(&self) -> (dim: (usize, usize, usize))
        ensures
            field_extents(*self) == (dim.0 as int, dim.1 as int, dim.2 as int),
            shape_fits3((dim.0 as int, dim.1 as int, dim.2 as int)),
            forall|i: (int, int, int)| #[trigger]
                field_cells(*self).dom().contains(i) <==> in_extents3(i, field_extents(*self)),
    {
        array3_dim(self)
    }

    /// The element at row `y`, column `x`, channel `ci`.
    pub fn get(&self, y: usize, x: usize, ci: usize) -> (value: F32Bits)
        requires
            in_extents3((y as int, x as int, ci as int), field_extents(*self)),
        ensures
            value == self.at(y as int, x as int, ci as int),
    {
        array3_get(self, y, x, ci)
    }

    /// Writes the element at row `y`, column `x`, channel `ci`.
    pub fn set(&mut self, y: usize, x: usize, ci: usize, value: F32Bits)
        requires
            in_extents3((y as int, x as int, ci as int), field_extents(*old(self))),
        ensures
            field_extents(*final(self)) == field_extents(*old(self)),
            field_cells(*final(self)) == field_cells(*old(self)).insert(
                (y as int, x as int, ci as int),
                value,
            ),
    {
        array3_set(self, y, x, ci, value)
    }
}

impl KernelImage {
    /// Number of rows.
    pub open spec fn rows(self) -> int {
        image_extents(self).0
    }

    /// Number of columns.
    pub open spec fn cols(self) -> int {
        image_extents(self).1
    }

    /// The element at row `y`, column `x`.
    pub open spec fn at(self, y: int, x: int) -> u32 {
        image_cells(self)[(y, x)]
    }

    /// An image of the given shape that is zero everywhere.
    pub fn zeros(rows: usize, cols: usize) -> (k: KernelImage)
        requires
            shape_fits2((rows as int, cols as int)),
            4 * (rows * cols) <= isize::MAX,
        ensures
            image_extents(k) == (rows as int, cols as int),
            image_cells(k) == Map::new(
                |i: (int, int)| in_extents2(i, (rows as int, cols as int)),
                |i: (int, int)| 0u32,
            ),
    {
        array2_from_elem(rows, cols, 0)
    }

    /// The axis lengths: rows, columns.
    pub fn dim(&self) -> (dim: (usize, usize))
        ensures
            image_extents(*self) == (dim.0 as int, dim.1 as int),
            shape_fits2((dim.0 as int, dim.1 as int)),
            forall|i: (int, int)| #[trigger]
                image_cells(*self).dom().contains(i) <==> in_extents2(i, image_extents(*self)),
    {
        array2_dim(self)
    }

    /// The element at row `y`, column `x`.
    pub fn get(&self, y: usize, x: usize) -> (value: F32Bits)
        requires
            in_extents2((y as int, x as int), image_extents(*self)),
        ensures
            value == self.at(y as int, x as int),
    {
        array2_get(self, y, x)
    }

    /// Writes the element at row `y`, column `x`.
    pub fn set(&mut self, y: usize, x: usize, value: F32Bits)
        requires
            in_extents2((y as int, x as int), image_extents(*old(self))),
        ensures
            image_extents(*final(self)) == image_extents(*old(self)),
            image_cells(*final(self)) == image_cells(*old(self)).insert(
                (y as int, x as int),
                value,
            ),
    {
        array2_set(self, y, x, value)
    }
}

} // verus!
