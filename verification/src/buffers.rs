//! Shapes of column buffers and read-only views into filled ones.
use vstd::prelude::*;

verus! {

/// Indicator value that marks a slot of a nullable column as holding no value.
pub const NULL_DATA: isize = -1;

/// The physical shape of the buffer a column is fetched into.
#[derive(Clone, Copy, Debug, PartialEq, Eq, Structural)]
pub enum BufferDesc {
    /// Narrow text of up to `max_str_len` bytes per value, terminating zero excluded.
    Text { max_str_len: usize },
    /// UTF-16 text of up to `max_str_len` code units per value, terminating zero excluded.
    WText { max_str_len: usize },
    /// Signed 8 bit integers.
    I8 { nullable: bool },
    /// Signed 16 bit integers.
    I16 { nullable: bool },
    /// Signed 32 bit integers.
    I32 { nullable: bool },
    /// Signed 64 bit integers.
    I64 { nullable: bool },
    /// Unsigned 8 bit integers.
    U8 { nullable: bool },
    /// Calendar timestamps with a fraction of a second.
    Timestamp { nullable: bool },
}

impl BufferDesc {
    /// `Some(nullable)` for a buffer of fixed-width slots, `None` for text.
    pub open spec fn nullable(self) -> Option<bool> {
        match self {
            BufferDesc::Text { .. } | BufferDesc::WText { .. } => None,
            BufferDesc::I8 { nullable }
            | BufferDesc::I16 { nullable }
            | BufferDesc::I32 { nullable }
            | BufferDesc::I64 { nullable }
            | BufferDesc::U8 { nullable }
            | BufferDesc::Timestamp { nullable } => Some(nullable),
        }
    }
}

/// A type whose values fill the slots of a fixed-width column buffer.
pub trait Item: Copy {
    /// The buffer that holds values of this type.
    spec fn slot_desc(nullable: bool) -> BufferDesc;

    /// The buffer has an indicator for each slot exactly if `nullable` is set.
    proof fn slot_desc_nullable(nullable: bool)
        ensures
            Self::slot_desc(nullable).nullable() == Some(nullable),
    ;

    /// The buffer to bind for a column of this type.
    fn buffer_desc(nullable: bool) -> (desc: BufferDesc)
        ensures
            desc == Self::slot_desc(nullable),
    ;
}

impl Item for i8 {
    open spec fn slot_desc(nullable: bool) -> BufferDesc {
        BufferDesc::I8 { nullable }
    }

    proof fn slot_desc_nullable(nullable: bool) {
    }

    fn buffer_desc(nullable: bool) -> (desc: BufferDesc) {
        BufferDesc::I8 { nullable }
    }
}

impl Item for i16 {
    open spec fn slot_desc(nullable: bool) -> BufferDesc {
        BufferDesc::I16 { nullable }
    }

    proof fn slot_desc_nullable(nullable: bool) {
    }

    fn buffer_desc(nullable: bool) -> (desc: BufferDesc) {
        BufferDesc::I16 { nullable }
    }
}

impl Item for i32 {
    open spec fn slot_desc(nullable: bool) -> BufferDesc {
        BufferDesc::I32 { nullable }
    }

    proof fn slot_desc_nullable(nullable: bool) {
    }

    fn buffer_desc(nullable: bool) -> (desc: BufferDesc) {
        BufferDesc::I32 { nullable }
    }
}

impl Item for i64 {
    open spec fn slot_desc(nullable: bool) -> BufferDesc {
        BufferDesc::I64 { nullable }
    }

    proof fn slot_desc_nullable(nullable: bool) {
    }

    fn buffer_desc(nullable: bool) -> (desc: BufferDesc) {
        BufferDesc::I64 { nullable }
    }
}

impl Item for u8 {
    open spec fn slot_desc(nullable: bool) -> BufferDesc {
        BufferDesc::U8 { nullable }
    }

    proof fn slot_desc_nullable(nullable: bool) {
    }

    fn buffer_desc(nullable: bool) -> (desc: BufferDesc) {
        BufferDesc::U8 { nullable }
    }
}

/// The rows of a column without indicators: each holds its slot.
pub open spec fn all_present<T>(values: Seq<T>) -> Seq<Option<T>> {
    Seq::new(values.len(), |i: int| Some(values[i]))
}

/// Slots of a nullable fixed-width column together with their indicators.
///
/// Row `i` holds `values[i]` unless `indicators[i]` is [`NULL_DATA`]. What the
/// slot of an absent row holds is unspecified and never looked at.
pub struct NullableSlice<'a, T> {
    pub values: &'a [T],
    pub indicators: &'a [isize],
}

impl<'a, T> NullableSlice<'a, T> {
    /// Every slot has its indicator.
    pub open spec fn wf(&self) -> bool {
        self.values@.len() == self.indicators@.len()
    }

    /// Whether row `i` holds a value.
    pub open spec fn is_present(&self, i: int) -> bool {
        self.indicators@[i] != NULL_DATA
    }

    /// The rows as optional values.
    pub open spec fn rows(&self) -> Seq<Option<T>> {
        Seq::new(
            self.indicators@.len(),
            |i: int| if self.is_present(i) { Some(self.values@[i]) } else { None },
        )
    }

    /// Number of rows.
    pub open spec fn spec_len(&self) -> nat {
        self.indicators@.len()
    }

    /// Number of rows.
    pub fn len(&self) -> (n: usize)
        ensures
            n == self.spec_len(),
    {
        self.indicators.len()
    }

    /// Whether there are no rows.
    pub fn is_empty(&self) -> (b: bool)
        ensures
            b == (self.indicators@.len() == 0),
    {
        self.indicators.len() == 0
    }

    /// The value of row `index`, `None` if the row is absent.
    pub fn get(&self, index: usize) -> (r: Option<&'a T>)
        requires
            self.wf(),
            index < self.indicators@.len(),
        ensures
            r == match self.rows()[index as int] {
                Some(v) => Some(&v),
                None => None,
            },
    {
        if self.indicators[index] == NULL_DATA {
            None
        } else {
            Some(&self.values[index])
        }
    }
}

/// A read-only view into the filled buffer of one column, valid for one batch.
pub enum ColumnView<'a, T> {
    /// Fixed-width slots of a column without an indicator buffer.
    Values(&'a [T]),
    /// Fixed-width slots with an indicator for each.
    Nullable(NullableSlice<'a, T>),
    /// Narrow text, one optional byte string per row.
    Text(Vec<Option<&'a [u8]>>),
    /// UTF-16 text, one optional sequence of code units per row.
    WText(Vec<Option<&'a [u16]>>),
}

impl<'a, T> ColumnView<'a, T> {
    /// Whether this view is of a buffer that was bound as `desc` says.
    pub open spec fn matches(&self, desc: BufferDesc) -> bool {
        match desc {
            BufferDesc::Text { .. } => self is Text,
            BufferDesc::WText { .. } => self is WText,
            _ => if desc.nullable() == Some(true) {
                self matches ColumnView::Nullable(slice) && slice.wf()
            } else {
                self is Values
            },
        }
    }

    /// Whether this view is of a buffer that was bound as `desc` says.
    pub fn fits(&self, desc: &BufferDesc) -> (fits: bool)
        ensures
            fits == self.matches(*desc),
    {
        match desc {
            BufferDesc::Text { .. } => matches!(self, ColumnView::Text(_)),
            BufferDesc::WText { .. } => matches!(self, ColumnView::WText(_)),
            BufferDesc::I8 { nullable }
            | BufferDesc::I16 { nullable }
            | BufferDesc::I32 { nullable }
            | BufferDesc::I64 { nullable }
            | BufferDesc::U8 { nullable }
            | BufferDesc::Timestamp { nullable } => if *nullable {
                match self {
                    ColumnView::Nullable(slice) => slice.values.len() == slice.indicators.len(),
                    _ => false,
                }
            } else {
                matches!(self, ColumnView::Values(_))
            },
        }
    }

    /// The rows of a view of fixed-width slots as optional values. A view of
    /// text has none of these.
    pub open spec fn fixed_rows(&self) -> Seq<Option<T>> {
        match self {
            ColumnView::Values(values) => all_present(values@),
            ColumnView::Nullable(slice) => slice.rows(),
            _ => Seq::empty(),
        }
    }

    /// Number of rows in the view.
    pub open spec fn spec_len(&self) -> nat {
        match self {
            ColumnView::Values(values) => values@.len(),
            ColumnView::Nullable(slice) => slice.spec_len(),
            ColumnView::Text(rows) => rows@.len(),
            ColumnView::WText(rows) => rows@.len(),
        }
    }

    /// Number of rows in the view.
    pub fn len(&self) -> (n: usize)
        ensures
            n == self.spec_len(),
    {
        match self {
            ColumnView::Values(values) => values.len(),
            ColumnView::Nullable(slice) => slice.len(),
            ColumnView::Text(rows) => rows.len(),
            ColumnView::WText(rows) => rows.len(),
        }
    }

    /// The slots, if this is a view of a column without indicators.
    pub fn as_slice(&self) -> (r: Option<&'a [T]>)
        ensures
            r == match self {
                ColumnView::Values(values) => Some(*values),
                _ => None,
            },
    {
        match self {
            ColumnView::Values(values) => Some(*values),
            _ => None,
        }
    }

    /// Slots and indicators, if this is a view of a nullable fixed-width column.
    pub fn as_nullable_slice(&self) -> (r: Option<&NullableSlice<'a, T>>)
        ensures
            r == match self {
                ColumnView::Nullable(slice) => Some(slice),
                _ => None,
            },
    {
        match self {
            ColumnView::Nullable(slice) => Some(slice),
            _ => None,
        }
    }

    /// The rows, if this is a view of narrow text.
    pub fn as_text_view(&self) -> (r: Option<&Vec<Option<&'a [u8]>>>)
        ensures
            r == match self {
                ColumnView::Text(rows) => Some(rows),
                _ => None,
            },
    {
        match self {
            ColumnView::Text(rows) => Some(rows),
            _ => None,
        }
    }

    /// The rows, if this is a view of UTF-16 text.
    pub fn as_w_text_view(&self) -> (r: Option<&Vec<Option<&'a [u16]>>>)
        ensures
            r == match self {
                ColumnView::WText(rows) => Some(rows),
                _ => None,
            },
    {
        match self {
            ColumnView::WText(rows) => Some(rows),
            _ => None,
        }
    }
}

/// A view fits the buffer of a column of fixed-width slots exactly if it has
/// indicators where the column is nullable, and none where it is not.
pub proof fn lemma_fixed_width_view<T: Item>(view: ColumnView<'_, T>, nullable: bool)
    ensures
        view.matches(T::slot_desc(nullable)) <==> if nullable {
            view matches ColumnView::Nullable(slice) && slice.wf()
        } else {
            view is Values
        },
{
    T::slot_desc_nullable(nullable);
}

} // verus!
