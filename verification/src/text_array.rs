//! Arrays of UTF-8 strings and their builder.
//!
//! Both are those of `arrow`. What they hold is not proved here: it is what
//! the contracts of the functions in this file say of `arrow`'s methods.
use arrow::array::{StringArray, StringBuilder};
use vstd::prelude::*;
use vstd::utf8::encode_utf8;

verus! {

/// An array of optional strings that is filled row by row: an
/// `arrow::array::StringBuilder`.
#[verifier::external_body]
pub struct TextBuilder {
    inner: StringBuilder,
}

/// A finished array of optional strings: an `arrow::array::StringArray`.
#[verifier::external_body]
pub struct TextArray {
    pub inner: StringArray,
}

/// The rows appended to `builder` since it was made or last finished, in
/// the order in which they were appended.
pub uninterp spec fn text_builder_items(builder: TextBuilder) -> Seq<Option<Seq<char>>>;

/// The rows of `array`, in the order of `StringArray::iter`: `None` for a
/// null, else the string.
pub uninterp spec fn text_array_items(array: TextArray) -> Seq<Option<Seq<char>>>;

/// Upper bound for the number of rows to reserve room for.
pub const MAX_ITEM_CAPACITY: usize = 0x0FFF_FFFF;

/// Upper bound for the bytes that the strings of one array take together.
/// The array finds its strings by offsets that are signed 32 bit integers.
pub const MAX_TEXT_BYTES: usize = 0x7FFF_FFFF;

/// The bytes that the strings in `items` take together when encoded as UTF-8.
pub open spec fn text_bytes(items: Seq<Option<Seq<char>>>) -> nat
    decreases items.len(),
{
    if items.len() == 0 {
        0
    } else {
        text_bytes(items.drop_last()) + match items.last() {
            Some(text) => encode_utf8(text).len(),
            None => 0,
        }
    }
}

/// Of a sequence of rows, the first ones take no more bytes than all.
pub proof fn lemma_text_bytes_take(items: Seq<Option<Seq<char>>>, n: int)
    requires
        0 <= n <= items.len(),
    ensures
        text_bytes(items.take(n)) <= text_bytes(items),
    decreases items.len(),
{
    if n < items.len() {
        lemma_text_bytes_take(items.drop_last(), n);
        assert(items.drop_last().take(n) == items.take(n));
    } else {
        assert(items.take(n) == items);
    }
}

/// `StringBuilder::with_capacity`: an empty builder with room for
/// `item_capacity` rows and `data_capacity` bytes. The bounds keep both
/// allocations below `isize::MAX` bytes.
#[verifier::external_body]
pub(crate) fn builder_with_capacity(item_capacity: usize, data_capacity: usize) -> (builder:
    TextBuilder)
    requires
        item_capacity <= MAX_ITEM_CAPACITY,
        data_capacity <= MAX_TEXT_BYTES,
    ensures
        text_builder_items(builder) == Seq::<Option<Seq<char>>>::empty(),
{
    TextBuilder { inner: StringBuilder::with_capacity(item_capacity, data_capacity) }
}

/// `StringBuilder::append_value`: appends a row that holds `value`. It
/// panics once the bytes of all strings together no longer fit a signed 32
/// bit offset.
#[verifier::external_body]
pub(crate) fn builder_append_value(builder: &mut TextBuilder, value: &str)
    requires
        text_bytes(text_builder_items(*old(builder))) + encode_utf8(value@).len()
            <= MAX_TEXT_BYTES,
    ensures
        text_builder_items(*final(builder)) == text_builder_items(*old(builder)).push(
            Some(value@),
        ),
{
    builder.inner.append_value(value)
}

/// `StringBuilder::append_null`: appends a row that holds no value.
#[verifier::external_body]
pub(crate) fn builder_append_null(builder: &mut TextBuilder)
    requires
        text_bytes(text_builder_items(*old(builder))) <= MAX_TEXT_BYTES,
    ensures
        text_builder_items(*final(builder)) == text_builder_items(*old(builder)).push(None),
{
    builder.inner.append_null()
}

/// `StringBuilder::finish`: the array of the rows appended so far. The
/// builder is empty afterwards.
#[verifier::external_body]
pub(crate) fn builder_finish(builder: &mut TextBuilder) -> (array: TextArray)
    requires
        text_bytes(text_builder_items(*old(builder))) <= MAX_TEXT_BYTES,
    ensures
        text_array_items(array) == text_builder_items(*old(builder)),
        text_builder_items(*final(builder)) == Seq::<Option<Seq<char>>>::empty(),
{
    TextArray { inner: builder.inner.finish() }
}

} // verus!
