//! Per-column strategies that turn filled result-set column buffers into
//! typed columnar arrays.
//!
//! A strategy is chosen once per column. It first says which buffer the fetch
//! layer has to bind ([`buffers::BufferDesc`]) and afterwards converts every
//! filled batch ([`buffers::ColumnView`]) into an array.
use vstd::prelude::*;

pub mod buffers;
pub mod date_time;
pub mod map_odbc_to_arrow;
pub mod text;
pub mod text_array;
pub mod utf16;

pub use buffers::{BufferDesc, ColumnView, Item, NullableSlice, NULL_DATA};
pub use date_time::{ns_since_epoch, timestamp_ns_strategy, Timestamp};
pub use map_odbc_to_arrow::{
    DirectStrategy, MapOdbcToArrow, MappedStrategy, MappingError, NonNullDirectStrategy,
    NonNullableStrategy, NullableDirectStrategy, NullableStrategy,
};
pub use text::{
    choose_text_strategy, narrow_text_strategy, wide_text_strategy, ColumnFailure, NarrowText,
    Platform, SqlType, TextStrategy, WideText,
};
pub use text_array::TextArray;

verus! {

/// All that is decided for one column: which buffer is bound for it, and how
/// a filled buffer becomes an array.
///
/// A strategy is made once, when the result set is bound, and never changes:
/// it describes the same buffer whenever it is asked.
pub trait ReadStrategy {
    /// The type of the slots, where the buffer is one of fixed-width slots.
    type Slot;

    /// The array that a batch is converted into.
    type Array;

    /// The buffer this strategy asks for.
    spec fn spec_buffer_desc(&self) -> BufferDesc;

    /// What the view of a batch has to meet, besides being of the buffer
    /// asked for, so that the batch can be converted.
    spec fn convertible(&self, column_view: ColumnView<'_, Self::Slot>) -> bool;

    /// Whether `filled` is what converting the batch may give.
    spec fn conversion(
        &self,
        column_view: ColumnView<'_, Self::Slot>,
        filled: Result<Self::Array, MappingError>,
    ) -> bool;

    /// Describes the buffer which is to be bound for the column. It is asked
    /// for once, before any batch is fetched.
    fn buffer_desc(&self) -> (desc: BufferDesc)
        ensures
            desc == self.spec_buffer_desc(),
    ;

    /// Converts one batch into a new array, or fails for the whole batch:
    /// there is no array that is filled in part.
    fn fill_arrow_array(&self, column_view: &ColumnView<'_, Self::Slot>) -> (filled: Result<
        Self::Array,
        MappingError,
    >)
        requires
            column_view.matches(self.spec_buffer_desc()),
            self.convertible(*column_view),
        ensures
            self.conversion(*column_view, filled),
    ;
}

} // verus!
