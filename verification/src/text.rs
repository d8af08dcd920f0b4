//! Text columns: which encoding to fetch them in, how large to make the
//! buffer, and how to turn a filled buffer into UTF-8 strings.
use vstd::prelude::*;

use vstd::utf8::{decode_utf8, encode_utf8, valid_utf8};

use crate::buffers::{BufferDesc, ColumnView};
use crate::map_odbc_to_arrow::MappingError;
use crate::text_array::{
    builder_append_null, builder_append_value, builder_finish, builder_with_capacity,
    lemma_text_bytes_take, text_array_items, text_builder_items, text_bytes, TextArray,
    TextBuilder, MAX_ITEM_CAPACITY, MAX_TEXT_BYTES,
};
use crate::utf16::{decode_utf16, utf16_to_string};
use crate::ReadStrategy;

verus! {

/// What the metadata of a result set says about a column that is to be
/// fetched as text. A length of zero means that the data source did not
/// report one.
#[derive(Clone, Copy, Debug, PartialEq, Eq, Structural)]
pub enum SqlType {
    /// A character type declared narrow, such as `CHAR` or `VARCHAR`.
    Narrow {
        /// Upper bound of the length in bytes of a value encoded as UTF-8.
        utf8_len: usize,
        /// Upper bound of the length in code units of a value encoded as UTF-16.
        utf16_len: usize,
    },
    /// A character type declared wide, such as `NCHAR` or `NVARCHAR`.
    Wide {
        /// Upper bound of the length in bytes of a value encoded as UTF-8.
        utf8_len: usize,
        /// Upper bound of the length in code units of a value encoded as UTF-16.
        utf16_len: usize,
    },
    /// Any other type. Its values are fetched in their character form.
    Other {
        /// The number of characters needed to display a value, where the type fixes it.
        display_size: Option<usize>,
    },
}

impl SqlType {
    /// Whether the type is a character type declared narrow.
    pub open spec fn is_narrow(self) -> bool {
        self is Narrow
    }

    /// Whether the type is a character type declared wide.
    pub open spec fn is_wide(self) -> bool {
        self is Wide
    }

    /// Whether the type is a character type.
    pub open spec fn is_text(self) -> bool {
        self.is_narrow() || self.is_wide()
    }
}

/// The kind of platform the process runs on. Narrow text is encoded as the
/// locale says, and only off Windows the locale can be relied on to be UTF-8.
#[derive(Clone, Copy, Debug, PartialEq, Eq, Structural)]
pub enum Platform {
    Windows,
    Other,
}

/// Why no buffer could be planned for a column. `E` is the error of the
/// query for the display size.
#[derive(Debug)]
pub enum ColumnFailure<E> {
    /// The length of the column is zero or unknown, and no upper bound for
    /// text has been configured.
    ZeroSizedColumn { sql_type: SqlType },
    /// The data source could not tell the display size of the column.
    UnknownStringLength { sql_type: SqlType, source: E },
}

/// Strategy that fetches text as UTF-16 and emits it as UTF-8. It is the one
/// to use where the narrow encoding depends on the locale.
pub struct WideText {
    /// Maximum string length in `u16`, excluding terminating zero.
    max_str_len: usize,
}

impl WideText {
    /// Maximum length of a value in UTF-16 code units.
    pub closed spec fn max_str_len(&self) -> usize {
        self.max_str_len
    }

    pub fn new(max_str_len: usize) -> (strategy: Self)
        ensures
            strategy.max_str_len() == max_str_len,
    {
        Self { max_str_len }
    }
}

/// Strategy that fetches text in the narrow encoding, which has to be UTF-8.
pub struct NarrowText {
    /// Maximum string length in `u8`, excluding terminating zero.
    max_str_len: usize,
}

impl NarrowText {
    /// Maximum length of a value in bytes.
    pub closed spec fn max_str_len(&self) -> usize {
        self.max_str_len
    }

    pub fn new(max_str_len: usize) -> (strategy: Self)
        ensures
            strategy.max_str_len() == max_str_len,
    {
        Self { max_str_len }
    }
}

/// The strategy chosen for a column of text.
pub enum TextStrategy {
    Narrow(NarrowText),
    Wide(WideText),
}

impl ReadStrategy for TextStrategy {
    type Slot = u8;

    type Array = TextArray;

    open spec fn spec_buffer_desc(&self) -> BufferDesc {
        match self {
            TextStrategy::Narrow(strategy) => strategy.spec_buffer_desc(),
            TextStrategy::Wide(strategy) => strategy.spec_buffer_desc(),
        }
    }

    /// The data source has to have kept its promise on the encoding, and one
    /// array has to be able to hold the strings.
    open spec fn convertible(&self, column_view: ColumnView<'_, u8>) -> bool {
        is_encoded(column_view) && fits_array(column_view)
    }

    /// The array holds the string of each row that holds one, and a null
    /// for each row that holds none.
    open spec fn conversion(
        &self,
        column_view: ColumnView<'_, u8>,
        filled: Result<TextArray, MappingError>,
    ) -> bool {
        filled matches Ok(array) && text_array_items(array) == text_rows(column_view)
    }

    fn buffer_desc(&self) -> (desc: BufferDesc) {
        match self {
            TextStrategy::Narrow(strategy) => strategy.buffer_desc(),
            TextStrategy::Wide(strategy) => strategy.buffer_desc(),
        }
    }

    /// Converts a batch of the column into an array of strings.
    fn fill_arrow_array(&self, column_view: &ColumnView<'_, u8>) -> (filled: Result<
        TextArray,
        MappingError,
    >) {
        match self {
            TextStrategy::Narrow(strategy) => strategy.fill_arrow_array(column_view),
            TextStrategy::Wide(strategy) => strategy.fill_arrow_array(column_view),
        }
    }
}

/// The strategy for a column fetched as UTF-16 with up to `u16_len` code
/// units per value.
pub fn wide_text_strategy(u16_len: usize) -> (strategy: TextStrategy)
    ensures
        strategy.spec_buffer_desc() == (BufferDesc::WText { max_str_len: u16_len }),
{
    TextStrategy::Wide(WideText::new(u16_len))
}

/// The strategy for a column fetched as narrow text with up to `octet_len`
/// bytes per value.
pub fn narrow_text_strategy(octet_len: usize) -> (strategy: TextStrategy)
    ensures
        strategy.spec_buffer_desc() == (BufferDesc::Text { max_str_len: octet_len }),
{
    TextStrategy::Narrow(NarrowText::new(octet_len))
}

/// The length of the buffer for a column whose values are up to `len` long,
/// under the configured upper bound. A length of zero is unknown: the upper
/// bound stands in for it, and without one there is no length.
pub open spec fn limited_len(len: usize, max_text_size: Option<usize>) -> Option<usize> {
    match max_text_size {
        None => if len == 0 {
            None
        } else {
            Some(len)
        },
        Some(limit) => if len == 0 || limit < len {
            Some(limit)
        } else {
            Some(len)
        },
    }
}

/// The buffer is never shorter than the values may be long, unless the
/// configured upper bound is what cuts it.
pub proof fn lemma_limited_len_covers(len: usize, max_text_size: Option<usize>)
    ensures
        limited_len(len, max_text_size) matches Some(limited) ==> limited >= len
            || max_text_size == Some(limited),
        limited_len(len, max_text_size) is None <==> len == 0 && max_text_size is None,
        max_text_size matches Some(limit) ==> limited_len(len, max_text_size) matches Some(limited)
            && limited <= limit,
{
}

/// Computes [`limited_len`].
pub fn apply_buffer_limit(len: usize, max_text_size: Option<usize>) -> (limited: Option<usize>)
    ensures
        limited == limited_len(len, max_text_size),
{
    match max_text_size {
        None => if len == 0 {
            None
        } else {
            Some(len)
        },
        Some(limit) => if len == 0 || limit < len {
            Some(limit)
        } else {
            Some(len)
        },
    }
}

/// The length that the metadata alone gives for a column, in the units of
/// the encoding used on `platform`. `None` if the data source has to be asked.
pub open spec fn metadata_len(sql_type: SqlType, platform: Platform) -> Option<usize> {
    match sql_type {
        SqlType::Narrow { utf8_len, utf16_len } | SqlType::Wide { utf8_len, utf16_len } => {
            if platform is Windows {
                Some(utf16_len)
            } else {
                Some(utf8_len)
            }
        },
        SqlType::Other { display_size } => display_size,
    }
}

/// The buffer for a column of `sql_type` with values up to `len` long.
/// Character types are fetched wide on Windows. Everything else is narrow:
/// values of other types are assumed to consist of ASCII characters only.
pub open spec fn text_buffer(sql_type: SqlType, platform: Platform, len: usize) -> BufferDesc {
    if sql_type.is_text() && platform is Windows {
        BufferDesc::WText { max_str_len: len }
    } else {
        BufferDesc::Text { max_str_len: len }
    }
}

/// The buffer planned for a column whose values are up to `len` long.
pub open spec fn planned_buffer<E>(
    sql_type: SqlType,
    platform: Platform,
    len: usize,
    max_text_size: Option<usize>,
) -> Result<BufferDesc, ColumnFailure<E>> {
    match limited_len(len, max_text_size) {
        Some(limited) => Ok(text_buffer(sql_type, platform, limited)),
        None => Err(ColumnFailure::ZeroSizedColumn { sql_type }),
    }
}

/// A display size as a length: a negative one counts as zero.
pub open spec fn display_len(display_size: isize) -> usize {
    if display_size < 0 {
        0
    } else {
        display_size as usize
    }
}

/// The buffer planned for a column from what the data source answered when
/// asked for its display size.
pub open spec fn planned_buffer_after_query<E>(
    sql_type: SqlType,
    platform: Platform,
    queried: Result<isize, E>,
    max_text_size: Option<usize>,
) -> Result<BufferDesc, ColumnFailure<E>> {
    match queried {
        Ok(display_size) => planned_buffer(
            sql_type,
            platform,
            display_len(display_size),
            max_text_size,
        ),
        Err(source) => Err(ColumnFailure::UnknownStringLength { sql_type, source }),
    }
}

/// The buffer a chosen strategy asks for, or why none was chosen.
pub open spec fn described<E>(chosen: Result<TextStrategy, ColumnFailure<E>>) -> Result<
    BufferDesc,
    ColumnFailure<E>,
> {
    match chosen {
        Ok(strategy) => Ok(strategy.spec_buffer_desc()),
        Err(failure) => Err(failure),
    }
}

/// Chooses the strategy for a column whose values are up to `len` long.
pub fn text_strategy_for_len<E>(
    sql_type: SqlType,
    platform: Platform,
    len: usize,
    max_text_size: Option<usize>,
) -> (chosen: Result<TextStrategy, ColumnFailure<E>>)
    ensures
        described(chosen) == planned_buffer::<E>(sql_type, platform, len, max_text_size),
{
    let is_narrow = matches!(sql_type, SqlType::Narrow { .. });
    let is_wide = matches!(sql_type, SqlType::Wide { .. });
    let is_text = is_narrow || is_wide;
    match apply_buffer_limit(len, max_text_size) {
        None => Err(ColumnFailure::ZeroSizedColumn { sql_type }),
        Some(limited) => if is_text && matches!(platform, Platform::Windows) {
            Ok(wide_text_strategy(limited))
        } else {
            Ok(narrow_text_strategy(limited))
        },
    }
}

/// Chooses the strategy for a column after the data source has been asked
/// for its display size and answered `queried`.
pub fn text_strategy_after_query<E>(
    sql_type: SqlType,
    platform: Platform,
    queried: Result<isize, E>,
    max_text_size: Option<usize>,
) -> (chosen: Result<TextStrategy, ColumnFailure<E>>)
    ensures
        described(chosen) == planned_buffer_after_query(sql_type, platform, queried, max_text_size),
{
    match queried {
        Err(source) => Err(ColumnFailure::UnknownStringLength { sql_type, source }),
        Ok(display_size) => {
            let len: usize = if display_size < 0 {
                0
            } else {
                display_size as usize
            };
            text_strategy_for_len(sql_type, platform, len, max_text_size)
        },
    }
}

/// Decides whether a column is fetched as narrow text, assumed to be UTF-8,
/// or as wide text, which is UTF-16, and how long its buffer is.
///
/// Narrow is not always the choice because its encoding depends on the
/// locale, which on Windows usually is not UTF-8. The length is the one the
/// metadata gives where it gives one. Only where it gives none
/// `lazy_display_size` is called, once, and what it answers decides.
pub fn choose_text_strategy<E, F>(
    sql_type: SqlType,
    lazy_display_size: F,
    max_text_size: Option<usize>,
    platform: Platform,
) -> (chosen: Result<TextStrategy, ColumnFailure<E>>) where F: FnOnce() -> Result<isize, E>
    requires
        metadata_len(sql_type, platform) is None ==> call_requires(lazy_display_size, ()),
    ensures
        match metadata_len(sql_type, platform) {
            Some(len) => described(chosen) == planned_buffer::<E>(
                sql_type,
                platform,
                len,
                max_text_size,
            ),
            None => exists|queried: Result<isize, E>|
                call_ensures(lazy_display_size, (), queried) && described(chosen)
                    == planned_buffer_after_query(sql_type, platform, queried, max_text_size),
        },
{
    let known: Option<usize> = match sql_type {
        SqlType::Narrow { utf8_len, utf16_len } | SqlType::Wide { utf8_len, utf16_len } => {
            if matches!(platform, Platform::Windows) {
                Some(utf16_len)
            } else {
                Some(utf8_len)
            }
        },
        SqlType::Other { display_size } => display_size,
    };
    match known {
        Some(len) => text_strategy_for_len(sql_type, platform, len, max_text_size),
        None => {
            let queried = lazy_display_size();
            text_strategy_after_query(sql_type, platform, queried, max_text_size)
        },
    }
}

/// The strings that the rows of a narrow text column hold.
pub open spec fn narrow_rows(rows: Seq<Option<&[u8]>>) -> Seq<Option<Seq<char>>> {
    Seq::new(
        rows.len(),
        |i: int|
            match rows[i] {
                Some(bytes) => Some(decode_utf8(bytes@)),
                None => None,
            },
    )
}

/// Whether every value of a narrow text column is UTF-8.
pub open spec fn all_utf8(rows: Seq<Option<&[u8]>>) -> bool {
    forall|i: int|
        0 <= i < rows.len() ==> (#[trigger] rows[i] matches Some(bytes) ==> valid_utf8(bytes@))
}

/// The strings that the rows of a wide text column hold.
pub open spec fn wide_rows(rows: Seq<Option<&[u16]>>) -> Seq<Option<Seq<char>>> {
    Seq::new(
        rows.len(),
        |i: int|
            match rows[i] {
                Some(units) => Some(decode_utf16(units@).unwrap()),
                None => None,
            },
    )
}

/// Whether every value of a wide text column is well-formed UTF-16.
pub open spec fn all_utf16(rows: Seq<Option<&[u16]>>) -> bool {
    forall|i: int|
        0 <= i < rows.len() ==> (#[trigger] rows[i] matches Some(units) ==> decode_utf16(
            units@,
        ) is Some)
}

/// The strings that the rows of a view of text hold. A view of fixed-width
/// slots has none.
pub open spec fn text_rows<T>(view: ColumnView<'_, T>) -> Seq<Option<Seq<char>>> {
    match view {
        ColumnView::Text(rows) => narrow_rows(rows@),
        ColumnView::WText(rows) => wide_rows(rows@),
        _ => Seq::empty(),
    }
}

/// Whether a view of text holds what the data source has promised: UTF-8
/// where it is narrow, well-formed UTF-16 where it is wide.
pub open spec fn is_encoded<T>(view: ColumnView<'_, T>) -> bool {
    match view {
        ColumnView::Text(rows) => all_utf8(rows@),
        ColumnView::WText(rows) => all_utf16(rows@),
        _ => false,
    }
}

/// Whether one array can hold the strings of a view of text.
pub open spec fn fits_array<T>(view: ColumnView<'_, T>) -> bool {
    text_bytes(text_rows(view)) <= MAX_TEXT_BYTES
}

/// The bytes that `text` takes when encoded as UTF-8.
fn utf8_len(text: &str) -> (len: usize)
    ensures
        len == encode_utf8(text@).len(),
{
    text.as_bytes().len()
}

/// Tells whether a view of text can be converted: whether it holds what the
/// data source has promised and one array can hold its strings.
pub fn check_text<T>(column_view: &ColumnView<'_, T>) -> (sound: bool)
    ensures
        sound == (is_encoded(*column_view) && fits_array(*column_view)),
{
    let ghost rows = text_rows(*column_view);
    let mut bytes: usize = 0;
    let mut i: usize = 0;
    match column_view {
        ColumnView::Text(view) => {
            while i < view.len()
                invariant
                    i <= view.len(),
                    column_view matches ColumnView::Text(rows) && rows == view,
                    rows == narrow_rows(view@),
                    all_utf8(view@.take(i as int)),
                    bytes == text_bytes(rows.take(i as int)),
                    bytes <= MAX_TEXT_BYTES,
                decreases view.len() - i,
            {
                let ghost before = view@.take(i as int);
                let ghost after = view@.take(i + 1);
                proof {
                    lemma_text_bytes_take(rows, i + 1);
                    assert(rows.take(i + 1).drop_last() == rows.take(i as int));
                    assert(after.drop_last() == before);
                }
                let len: usize = match view[i] {
                    None => 0,
                    Some(value) => match str_from_utf8(value) {
                        None => {
                            assert(!all_utf8(view@)) by {
                                assert(view@[i as int] is Some);
                            }
                            return false;
                        },
                        Some(text) => utf8_len(text),
                    },
                };
                if len > MAX_TEXT_BYTES - bytes {
                    return false;
                }
                assert(all_utf8(after)) by {
                    assert forall|j: int| 0 <= j < after.len() implies (#[trigger] after[j] matches Some(
                        value,
                    ) ==> valid_utf8(value@)) by {
                        if j < i {
                            assert(before[j] == after[j]);
                        }
                    }
                }
                bytes = bytes + len;
                i = i + 1;
            }
            assert(view@.take(i as int) == view@);
            assert(rows.take(i as int) == rows);
            true
        },
        ColumnView::WText(view) => {
            while i < view.len()
                invariant
                    i <= view.len(),
                    column_view matches ColumnView::WText(rows) && rows == view,
                    rows == wide_rows(view@),
                    all_utf16(view@.take(i as int)),
                    bytes == text_bytes(rows.take(i as int)),
                    bytes <= MAX_TEXT_BYTES,
                decreases view.len() - i,
            {
                let ghost before = view@.take(i as int);
                let ghost after = view@.take(i + 1);
                proof {
                    lemma_text_bytes_take(rows, i + 1);
                    assert(rows.take(i + 1).drop_last() == rows.take(i as int));
                    assert(after.drop_last() == before);
                }
                let len: usize = match view[i] {
                    None => 0,
                    Some(units) => match utf16_to_string(units) {
                        None => {
                            assert(!all_utf16(view@)) by {
                                assert(view@[i as int] is Some);
                            }
                            return false;
                        },
                        Some(text) => utf8_len(text.as_str()),
                    },
                };
                if len > MAX_TEXT_BYTES - bytes {
                    return false;
                }
                assert(all_utf16(after)) by {
                    assert forall|j: int| 0 <= j < after.len() implies (#[trigger] after[j] matches Some(
                        units,
                    ) ==> decode_utf16(units@) is Some) by {
                        if j < i {
                            assert(before[j] == after[j]);
                        }
                    }
                }
                bytes = bytes + len;
                i = i + 1;
            }
            assert(view@.take(i as int) == view@);
            assert(rows.take(i as int) == rows);
            true
        },
        _ => false,
    }
}

/// `std::str::from_utf8`: `bytes` as a string, if they are UTF-8.
#[verifier::external_body]
fn str_from_utf8<'a>(bytes: &'a [u8]) -> (text: Option<&'a str>)
    ensures
        text is Some <==> valid_utf8(bytes@),
        text matches Some(s) ==> s@ == decode_utf8(bytes@),
{
    std::str::from_utf8(bytes).ok()
}

/// A builder with room for `rows` strings of up to `max_str_len` bytes each.
/// The room is reserved to save reallocations, so it is cut down to what one
/// array can hold at all.
fn text_builder(rows: usize, max_str_len: usize) -> (builder: TextBuilder)
    ensures
        text_builder_items(builder) == Seq::<Option<Seq<char>>>::empty(),
{
    let item_capacity = if rows <= MAX_ITEM_CAPACITY {
        rows
    } else {
        MAX_ITEM_CAPACITY
    };
    let data_capacity = match max_str_len.checked_mul(item_capacity) {
        Some(bytes) => if bytes <= MAX_TEXT_BYTES {
            bytes
        } else {
            MAX_TEXT_BYTES
        },
        None => MAX_TEXT_BYTES,
    };
    builder_with_capacity(item_capacity, data_capacity)
}

impl ReadStrategy for NarrowText {
    type Slot = u8;

    type Array = TextArray;

    open spec fn spec_buffer_desc(&self) -> BufferDesc {
        BufferDesc::Text { max_str_len: self.max_str_len() }
    }

    /// The data source has to have kept its promise on the encoding, and one
    /// array has to be able to hold the strings.
    open spec fn convertible(&self, column_view: ColumnView<'_, u8>) -> bool {
        is_encoded(column_view) && fits_array(column_view)
    }

    /// The array holds the string of each row that holds one, and a null
    /// for each row that holds none.
    open spec fn conversion(
        &self,
        column_view: ColumnView<'_, u8>,
        filled: Result<TextArray, MappingError>,
    ) -> bool {
        filled matches Ok(array) && text_array_items(array) == text_rows(column_view)
    }

    fn buffer_desc(&self) -> (desc: BufferDesc) {
        BufferDesc::Text { max_str_len: self.max_str_len }
    }

    /// Converts a batch of a narrow text column into an array of strings. A
    /// row without a value becomes a null.
    ///
    /// The data source has promised UTF-8. That it kept the promise is a
    /// precondition, together with the limit of what one array can hold.
    fn fill_arrow_array(&self, column_view: &ColumnView<'_, u8>) -> (filled: Result<
        TextArray,
        MappingError,
    >) {
        let view = match column_view.as_text_view() {
            Some(view) => view,
            None => vstd::pervasive::unreached(),
        };
        let ghost rows = narrow_rows(view@);
        let mut builder = text_builder(view.len(), self.max_str_len);
        let mut i: usize = 0;
        while i < view.len()
            invariant
                i <= view.len(),
                rows == narrow_rows(view@),
                all_utf8(view@),
                text_bytes(rows) <= MAX_TEXT_BYTES,
                text_builder_items(builder) == rows.take(i as int),
            decreases view.len() - i,
        {
            proof {
                lemma_text_bytes_take(rows, i as int);
                lemma_text_bytes_take(rows, i + 1);
                assert(rows.take(i + 1).drop_last() == rows.take(i as int));
            }
            match view[i] {
                Some(bytes) => match str_from_utf8(bytes) {
                    Some(text) => builder_append_value(&mut builder, text),
                    None => vstd::pervasive::unreached(),
                },
                None => builder_append_null(&mut builder),
            }
            assert(rows.take(i + 1) == rows.take(i as int).push(rows[i as int]));
            i = i + 1;
        }
        assert(rows.take(i as int) == rows);
        Ok(builder_finish(&mut builder))
    }
}

impl ReadStrategy for WideText {
    type Slot = u8;

    type Array = TextArray;

    open spec fn spec_buffer_desc(&self) -> BufferDesc {
        BufferDesc::WText { max_str_len: self.max_str_len() }
    }

    /// The data source has to have kept its promise on the encoding, and one
    /// array has to be able to hold the strings.
    open spec fn convertible(&self, column_view: ColumnView<'_, u8>) -> bool {
        is_encoded(column_view) && fits_array(column_view)
    }

    /// The array holds the string of each row that holds one, and a null
    /// for each row that holds none.
    open spec fn conversion(
        &self,
        column_view: ColumnView<'_, u8>,
        filled: Result<TextArray, MappingError>,
    ) -> bool {
        filled matches Ok(array) && text_array_items(array) == text_rows(column_view)
    }

    fn buffer_desc(&self) -> (desc: BufferDesc) {
        BufferDesc::WText { max_str_len: self.max_str_len }
    }

    /// Converts a batch of a wide text column into an array of strings. A
    /// row without a value becomes a null, and nothing is decoded for it.
    ///
    /// That every value is well-formed UTF-16 is a precondition, together
    /// with the limit of what one array can hold: a malformed value has no
    /// string, and none is made up for it.
    fn fill_arrow_array(&self, column_view: &ColumnView<'_, u8>) -> (filled: Result<
        TextArray,
        MappingError,
    >) {
        let view = match column_view.as_w_text_view() {
            Some(view) => view,
            None => vstd::pervasive::unreached(),
        };
        let ghost rows = wide_rows(view@);
        // Any UTF-16 code unit may take up to three bytes in UTF-8. Mostly it
        // is one, and few strings are as long as they may be, so room is
        // reserved for one byte each and a reallocation is accepted.
        let mut builder = text_builder(view.len(), self.max_str_len);
        let mut i: usize = 0;
        while i < view.len()
            invariant
                i <= view.len(),
                rows == wide_rows(view@),
                all_utf16(view@),
                text_bytes(rows) <= MAX_TEXT_BYTES,
                text_builder_items(builder) == rows.take(i as int),
            decreases view.len() - i,
        {
            proof {
                lemma_text_bytes_take(rows, i as int);
                lemma_text_bytes_take(rows, i + 1);
                assert(rows.take(i + 1).drop_last() == rows.take(i as int));
            }
            match view[i] {
                Some(units) => match utf16_to_string(units) {
                    Some(text) => builder_append_value(&mut builder, text.as_str()),
                    None => vstd::pervasive::unreached(),
                },
                None => builder_append_null(&mut builder),
            }
            assert(rows.take(i + 1) == rows.take(i as int).push(rows[i as int]));
            i = i + 1;
        }
        assert(rows.take(i as int) == rows);
        Ok(builder_finish(&mut builder))
    }
}

} // verus!
