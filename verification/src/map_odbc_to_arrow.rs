//! Columns of fixed-width values: strategies that copy the slots as they
//! are, and strategies that map each of them to a value of another type.
use std::marker::PhantomData;

use vstd::prelude::*;

use crate::buffers::{all_present, BufferDesc, ColumnView, Item};
use crate::date_time::Timestamp;
use crate::ReadStrategy;

verus! {

/// A value that the data source returned cannot be represented in the type
/// of the array it is meant for.
#[derive(Clone, Copy, Debug, PartialEq, Eq, Structural)]
pub enum MappingError {
    /// The timestamp is not representable as nanoseconds since the epoch in
    /// a signed 64 bit integer. That limits timestamps to the time from
    /// 1677-09-21 00:12:44 to 2262-04-11 23:47:16.854775807. To get such a
    /// value out of the database, reduce the precision or fetch it as text.
    OutOfRangeTimestampNs { value: Timestamp },
}

/// Whether `mapped` is what the mapping `f` may return for `value`.
pub open spec fn maps_to<O, P, F: Fn(&O) -> Result<P, MappingError>>(
    f: F,
    value: O,
    mapped: Result<P, MappingError>,
) -> bool {
    call_ensures(f, (&value,), mapped)
}

/// Whether the mapping `f` may map `value` to some element.
pub open spec fn maps_to_some<O, P, F: Fn(&O) -> Result<P, MappingError>>(f: F, value: O) -> bool {
    exists|element: P| maps_to(f, value, Ok(element))
}

/// Whether `f` may be applied to every value that `rows` hold.
pub open spec fn applies_to<O, P, F: Fn(&O) -> Result<P, MappingError>>(
    f: F,
    rows: Seq<Option<O>>,
) -> bool {
    forall|i: int|
        0 <= i < rows.len() ==> (#[trigger] rows[i] matches Some(value) ==> call_requires(
            f,
            (&value,),
        ))
}

/// Whether `f` fails on row `i` with `error` after it has mapped every row
/// before it that holds a value.
pub open spec fn fails_first_at<O, P, F: Fn(&O) -> Result<P, MappingError>>(
    f: F,
    rows: Seq<Option<O>>,
    i: int,
    error: MappingError,
) -> bool {
    &&& 0 <= i < rows.len()
    &&& rows[i] matches Some(value) && maps_to(f, value, Err(error))
    &&& forall|j: int|
        0 <= j < i ==> (#[trigger] rows[j] matches Some(earlier) ==> maps_to_some(f, earlier))
}

/// Whether `error` is the first error that `f` returns when it is applied to
/// the values of `rows` in turn.
pub open spec fn fails_first<O, P, F: Fn(&O) -> Result<P, MappingError>>(
    f: F,
    rows: Seq<Option<O>>,
    error: MappingError,
) -> bool {
    exists|i: int| fails_first_at(f, rows, i, error)
}

/// What converting `rows` with the mapping `f` may give: an array that holds
/// for each row with a value what `f` maps it to, and a null for each row
/// without one; or the first error that `f` returns, and no array.
pub open spec fn converts<O, P, F: Fn(&O) -> Result<P, MappingError>>(
    f: F,
    rows: Seq<Option<O>>,
    filled: Result<Vec<Option<P>>, MappingError>,
) -> bool {
    match filled {
        Ok(array) => {
            &&& array@.len() == rows.len()
            &&& forall|i: int|
                0 <= i < rows.len() ==> match #[trigger] rows[i] {
                    Some(value) => array@[i] matches Some(element) && maps_to(
                        f,
                        value,
                        Ok(element),
                    ),
                    None => array@[i] is None,
                }
        },
        Err(error) => fails_first(f, rows, error),
    }
}

/// Strategy for a column without nulls whose slots are what the array holds.
pub struct NonNullDirectStrategy<T> {
    phantom: PhantomData<T>,
}

impl<T: Item> NonNullDirectStrategy<T> {
    pub fn new() -> (strategy: Self)
        ensures
            strategy.spec_buffer_desc() == T::slot_desc(false),
    {
        Self { phantom: PhantomData }
    }
}

impl<T: Item> ReadStrategy for NonNullDirectStrategy<T> {
    type Slot = T;

    type Array = Vec<Option<T>>;

    open spec fn spec_buffer_desc(&self) -> BufferDesc {
        T::slot_desc(false)
    }

    open spec fn convertible(&self, column_view: ColumnView<'_, T>) -> bool {
        true
    }

    /// Every slot is found unchanged at its index.
    open spec fn conversion(
        &self,
        column_view: ColumnView<'_, T>,
        filled: Result<Vec<Option<T>>, MappingError>,
    ) -> bool {
        filled matches Ok(array) && array@ == column_view.fixed_rows()
    }

    fn buffer_desc(&self) -> (desc: BufferDesc) {
        T::buffer_desc(false)
    }

    /// Copies the slots of a batch into an array.
    fn fill_arrow_array(&self, column_view: &ColumnView<'_, T>) -> (filled: Result<
        Vec<Option<T>>,
        MappingError,
    >) {
        proof {
            T::slot_desc_nullable(false);
        }
        let slice = match column_view.as_slice() {
            Some(slice) => slice,
            None => vstd::pervasive::unreached(),
        };
        let mut array: Vec<Option<T>> = Vec::with_capacity(slice.len());
        let mut i: usize = 0;
        while i < slice.len()
            invariant
                i <= slice.len(),
                array@ == all_present(slice@).take(i as int),
            decreases slice.len() - i,
        {
            array.push(Some(slice[i]));
            assert(array@ == all_present(slice@).take(i + 1));
            i = i + 1;
        }
        assert(all_present(slice@).take(i as int) == all_present(slice@));
        Ok(array)
    }
}

/// Strategy for a column with nulls whose slots are what the array holds.
pub struct NullableDirectStrategy<T> {
    phantom: PhantomData<T>,
}

impl<T: Item> NullableDirectStrategy<T> {
    pub fn new() -> (strategy: Self)
        ensures
            strategy.spec_buffer_desc() == T::slot_desc(true),
    {
        Self { phantom: PhantomData }
    }
}

impl<T: Item> ReadStrategy for NullableDirectStrategy<T> {
    type Slot = T;

    type Array = Vec<Option<T>>;

    open spec fn spec_buffer_desc(&self) -> BufferDesc {
        T::slot_desc(true)
    }

    open spec fn convertible(&self, column_view: ColumnView<'_, T>) -> bool {
        true
    }

    /// Every row that holds a value is found unchanged at its index. A row
    /// that is marked absent is a null, whatever its slot holds.
    open spec fn conversion(
        &self,
        column_view: ColumnView<'_, T>,
        filled: Result<Vec<Option<T>>, MappingError>,
    ) -> bool {
        filled matches Ok(array) && array@ == column_view.fixed_rows()
    }

    fn buffer_desc(&self) -> (desc: BufferDesc) {
        T::buffer_desc(true)
    }

    /// Copies the rows of a batch into an array.
    fn fill_arrow_array(&self, column_view: &ColumnView<'_, T>) -> (filled: Result<
        Vec<Option<T>>,
        MappingError,
    >) {
        proof {
            T::slot_desc_nullable(true);
        }
        let values = match column_view.as_nullable_slice() {
            Some(values) => values,
            None => vstd::pervasive::unreached(),
        };
        let mut array: Vec<Option<T>> = Vec::with_capacity(values.len());
        let mut i: usize = 0;
        while i < values.len()
            invariant
                values.wf(),
                i <= values.spec_len(),
                array@ == values.rows().take(i as int),
            decreases values.spec_len() - i,
        {
            let value = match values.get(i) {
                Some(value) => Some(*value),
                None => None,
            };
            array.push(value);
            assert(array@ == values.rows().take(i + 1));
            i = i + 1;
        }
        assert(values.rows().take(i as int) == values.rows());
        Ok(array)
    }
}

/// Strategy for a column without nulls whose slots are mapped one by one to
/// the elements of the array.
pub struct NonNullableStrategy<P, O, F> {
    _primitive_type: PhantomData<P>,
    _odbc_item: PhantomData<O>,
    odbc_to_arrow: F,
}

impl<P, O: Item, F: Fn(&O) -> Result<P, MappingError>> NonNullableStrategy<P, O, F> {
    /// The mapping from a slot to an element.
    pub closed spec fn mapping(&self) -> F {
        self.odbc_to_arrow
    }

    pub fn new(odbc_to_arrow: F) -> (strategy: Self)
        ensures
            strategy.mapping() == odbc_to_arrow,
    {
        Self { _primitive_type: PhantomData, _odbc_item: PhantomData, odbc_to_arrow }
    }

}

impl<P, O: Item, F: Fn(&O) -> Result<P, MappingError>> ReadStrategy for NonNullableStrategy<P, O, F> {
    type Slot = O;

    type Array = Vec<Option<P>>;

    open spec fn spec_buffer_desc(&self) -> BufferDesc {
        O::slot_desc(false)
    }

    /// The mapping has to take every value that a row holds.
    open spec fn convertible(&self, column_view: ColumnView<'_, O>) -> bool {
        applies_to(self.mapping(), column_view.fixed_rows())
    }

    open spec fn conversion(
        &self,
        column_view: ColumnView<'_, O>,
        filled: Result<Vec<Option<P>>, MappingError>,
    ) -> bool {
        converts(self.mapping(), column_view.fixed_rows(), filled)
    }

    fn buffer_desc(&self) -> (desc: BufferDesc) {
        O::buffer_desc(false)
    }

    /// Maps the slots of a batch to the elements of an array. The first
    /// slot that the mapping fails on ends the conversion: its error is
    /// returned and no array.
    fn fill_arrow_array(&self, column_view: &ColumnView<'_, O>) -> (filled: Result<
        Vec<Option<P>>,
        MappingError,
    >) {
        proof {
            O::slot_desc_nullable(false);
        }
        let slice = match column_view.as_slice() {
            Some(slice) => slice,
            None => vstd::pervasive::unreached(),
        };
        let ghost rows = all_present(slice@);
        let mut array: Vec<Option<P>> = Vec::with_capacity(slice.len());
        let mut i: usize = 0;
        while i < slice.len()
            invariant
                i <= slice.len(),
                rows == column_view.fixed_rows(),
                rows == all_present(slice@),
                applies_to(self.odbc_to_arrow, rows),
                array@.len() == i,
                forall|j: int|
                    0 <= j < i ==> (#[trigger] rows[j] matches Some(value) && array@[j] matches Some(
                        element,
                    ) && maps_to(self.odbc_to_arrow, value, Ok(element))),
            decreases slice.len() - i,
        {
            assert(rows[i as int] == Some(slice@[i as int]));
            match (self.odbc_to_arrow)(&slice[i]) {
                Ok(element) => {
                    array.push(Some(element));
                },
                Err(error) => {
                    proof {
                        assert forall|j: int| 0 <= j < i implies (#[trigger] rows[j] matches Some(
                            earlier,
                        ) ==> maps_to_some(self.odbc_to_arrow, earlier)) by {
                            assert(maps_to(
                                self.odbc_to_arrow,
                                rows[j]->Some_0,
                                Ok(array@[j]->Some_0),
                            ));
                        }
                        assert(fails_first_at(self.odbc_to_arrow, rows, i as int, error));
                    }
                    return Err(error);
                },
            }
            i = i + 1;
        }
        Ok(array)
    }
}

/// Strategy for a column with nulls whose slots are mapped one by one to the
/// elements of the array.
pub struct NullableStrategy<P, O, F> {
    _primitive_type: PhantomData<P>,
    _odbc_item: PhantomData<O>,
    odbc_to_arrow: F,
}

impl<P, O: Item, F: Fn(&O) -> Result<P, MappingError>> NullableStrategy<P, O, F> {
    /// The mapping from a slot to an element.
    pub closed spec fn mapping(&self) -> F {
        self.odbc_to_arrow
    }

    pub fn new(odbc_to_arrow: F) -> (strategy: Self)
        ensures
            strategy.mapping() == odbc_to_arrow,
    {
        Self { _primitive_type: PhantomData, _odbc_item: PhantomData, odbc_to_arrow }
    }

}

impl<P, O: Item, F: Fn(&O) -> Result<P, MappingError>> ReadStrategy for NullableStrategy<P, O, F> {
    type Slot = O;

    type Array = Vec<Option<P>>;

    open spec fn spec_buffer_desc(&self) -> BufferDesc {
        O::slot_desc(true)
    }

    /// The mapping has to take every value that a row holds.
    open spec fn convertible(&self, column_view: ColumnView<'_, O>) -> bool {
        applies_to(self.mapping(), column_view.fixed_rows())
    }

    open spec fn conversion(
        &self,
        column_view: ColumnView<'_, O>,
        filled: Result<Vec<Option<P>>, MappingError>,
    ) -> bool {
        converts(self.mapping(), column_view.fixed_rows(), filled)
    }

    fn buffer_desc(&self) -> (desc: BufferDesc) {
        O::buffer_desc(true)
    }

    /// Maps the rows of a batch to the elements of an array. A row that is
    /// marked absent becomes a null and the mapping is not applied to it.
    /// The first slot that the mapping fails on ends the conversion: its
    /// error is returned and no array.
    fn fill_arrow_array(&self, column_view: &ColumnView<'_, O>) -> (filled: Result<
        Vec<Option<P>>,
        MappingError,
    >) {
        proof {
            O::slot_desc_nullable(true);
        }
        let opts = match column_view.as_nullable_slice() {
            Some(opts) => opts,
            None => vstd::pervasive::unreached(),
        };
        let ghost rows = opts.rows();
        let mut array: Vec<Option<P>> = Vec::with_capacity(opts.len());
        let mut i: usize = 0;
        while i < opts.len()
            invariant
                opts.wf(),
                i <= opts.spec_len(),
                rows == column_view.fixed_rows(),
                rows == opts.rows(),
                applies_to(self.odbc_to_arrow, rows),
                array@.len() == i,
                forall|j: int|
                    0 <= j < i ==> match #[trigger] rows[j] {
                        Some(value) => array@[j] matches Some(element) && maps_to(
                            self.odbc_to_arrow,
                            value,
                            Ok(element),
                        ),
                        None => array@[j] is None,
                    },
            decreases opts.spec_len() - i,
        {
            match opts.get(i) {
                None => {
                    array.push(None);
                },
                Some(odbc_value) => {
                    assert(rows[i as int] == Some(*odbc_value));
                    match (self.odbc_to_arrow)(odbc_value) {
                        Ok(element) => {
                            array.push(Some(element));
                        },
                        Err(error) => {
                            proof {
                                assert forall|j: int| 0 <= j < i implies (
                                #[trigger] rows[j] matches Some(earlier) ==> maps_to_some(
                                    self.odbc_to_arrow,
                                    earlier,
                                )) by {
                                    if rows[j] is Some {
                                        assert(maps_to(
                                            self.odbc_to_arrow,
                                            rows[j]->Some_0,
                                            Ok(array@[j]->Some_0),
                                        ));
                                    }
                                }
                                assert(fails_first_at(self.odbc_to_arrow, rows, i as int, error));
                            }
                            return Err(error);
                        },
                    }
                },
            }
            i = i + 1;
        }
        Ok(array)
    }
}

/// One of the two strategies that copy slots, as the column's nullability
/// asks for.
pub enum DirectStrategy<T> {
    NonNull(NonNullDirectStrategy<T>),
    Nullable(NullableDirectStrategy<T>),
}

impl<T: Item> DirectStrategy<T> {
    /// Whether the strategy looks at indicators.
    pub open spec fn is_nullable(&self) -> bool {
        self is Nullable
    }
}

impl<T: Item> ReadStrategy for DirectStrategy<T> {
    type Slot = T;

    type Array = Vec<Option<T>>;

    open spec fn spec_buffer_desc(&self) -> BufferDesc {
        T::slot_desc(self.is_nullable())
    }

    open spec fn convertible(&self, column_view: ColumnView<'_, T>) -> bool {
        true
    }

    open spec fn conversion(
        &self,
        column_view: ColumnView<'_, T>,
        filled: Result<Vec<Option<T>>, MappingError>,
    ) -> bool {
        filled matches Ok(array) && array@ == column_view.fixed_rows()
    }

    fn buffer_desc(&self) -> (desc: BufferDesc) {
        match self {
            DirectStrategy::NonNull(strategy) => strategy.buffer_desc(),
            DirectStrategy::Nullable(strategy) => strategy.buffer_desc(),
        }
    }

    /// Copies the rows of a batch into an array.
    fn fill_arrow_array(&self, column_view: &ColumnView<'_, T>) -> (filled: Result<
        Vec<Option<T>>,
        MappingError,
    >) {
        match self {
            DirectStrategy::NonNull(strategy) => strategy.fill_arrow_array(column_view),
            DirectStrategy::Nullable(strategy) => strategy.fill_arrow_array(column_view),
        }
    }
}

/// One of the two strategies that map slots, as the column's nullability
/// asks for.
pub enum MappedStrategy<P, O, F> {
    NonNull(NonNullableStrategy<P, O, F>),
    Nullable(NullableStrategy<P, O, F>),
}

impl<P, O: Item, F: Fn(&O) -> Result<P, MappingError>> MappedStrategy<P, O, F> {
    /// Whether the strategy looks at indicators.
    pub open spec fn is_nullable(&self) -> bool {
        self is Nullable
    }

    /// The mapping from a slot to an element.
    pub open spec fn mapping(&self) -> F {
        match self {
            MappedStrategy::NonNull(strategy) => strategy.mapping(),
            MappedStrategy::Nullable(strategy) => strategy.mapping(),
        }
    }

}

impl<P, O: Item, F: Fn(&O) -> Result<P, MappingError>> ReadStrategy for MappedStrategy<P, O, F> {
    type Slot = O;

    type Array = Vec<Option<P>>;

    open spec fn spec_buffer_desc(&self) -> BufferDesc {
        O::slot_desc(self.is_nullable())
    }

    /// The mapping has to take every value that a row holds.
    open spec fn convertible(&self, column_view: ColumnView<'_, O>) -> bool {
        applies_to(self.mapping(), column_view.fixed_rows())
    }

    open spec fn conversion(
        &self,
        column_view: ColumnView<'_, O>,
        filled: Result<Vec<Option<P>>, MappingError>,
    ) -> bool {
        converts(self.mapping(), column_view.fixed_rows(), filled)
    }

    fn buffer_desc(&self) -> (desc: BufferDesc) {
        match self {
            MappedStrategy::NonNull(strategy) => strategy.buffer_desc(),
            MappedStrategy::Nullable(strategy) => strategy.buffer_desc(),
        }
    }

    /// Maps the rows of a batch to the elements of an array.
    fn fill_arrow_array(&self, column_view: &ColumnView<'_, O>) -> (filled: Result<
        Vec<Option<P>>,
        MappingError,
    >) {
        match self {
            MappedStrategy::NonNull(strategy) => strategy.fill_arrow_array(column_view),
            MappedStrategy::Nullable(strategy) => strategy.fill_arrow_array(column_view),
        }
    }
}

/// Makes the strategy for a column of fixed-width values from the type of
/// the array's elements and the column's nullability. The choice between
/// the strategies is made here, once, and not again for each row.
pub trait MapOdbcToArrow {
    type ArrowElement;

    /// The strategy for a column whose slots are of type `U` and have to be
    /// mapped by `odbc_to_arrow` to become elements of the array.
    fn map_with<U, F>(nullable: bool, odbc_to_arrow: F) -> (strategy: MappedStrategy<
        Self::ArrowElement,
        U,
        F,
    >) where U: Item, F: Fn(&U) -> Result<Self::ArrowElement, MappingError>
        ensures
            strategy.is_nullable() == nullable,
            strategy.mapping() == odbc_to_arrow,
    ;

    /// The strategy for a column whose slots are elements of the array as
    /// they are.
    fn identical(nullable: bool) -> (strategy: DirectStrategy<Self::ArrowElement>) where
        Self::ArrowElement: Item,
        ensures
            strategy.is_nullable() == nullable,
    ;
}

impl<T> MapOdbcToArrow for T {
    type ArrowElement = T;

    fn map_with<U, F>(nullable: bool, odbc_to_arrow: F) -> (strategy: MappedStrategy<
        Self::ArrowElement,
        U,
        F,
    >) where U: Item, F: Fn(&U) -> Result<Self::ArrowElement, MappingError> {
        if nullable {
            MappedStrategy::Nullable(NullableStrategy::new(odbc_to_arrow))
        } else {
            MappedStrategy::NonNull(NonNullableStrategy::new(odbc_to_arrow))
        }
    }

    fn identical(nullable: bool) -> (strategy: DirectStrategy<Self::ArrowElement>) where
        Self::ArrowElement: Item,
    {
        if nullable {
            DirectStrategy::Nullable(NullableDirectStrategy::new())
        } else {
            DirectStrategy::NonNull(NonNullDirectStrategy::new())
        }
    }
}

/// Whether the mapping `f` returns for every value what `model` says.
pub open spec fn computes<O, P, F: Fn(&O) -> Result<P, MappingError>>(
    f: F,
    model: spec_fn(O) -> Result<P, MappingError>,
) -> bool {
    forall|value: O, mapped: Result<P, MappingError>| #[trigger]
        maps_to(f, value, mapped) ==> mapped == model(value)
}

/// The array for `rows` where `model` maps every value.
pub open spec fn mapped_all<O, P>(
    model: spec_fn(O) -> Result<P, MappingError>,
    rows: Seq<Option<O>>,
) -> Seq<Option<P>> {
    Seq::new(
        rows.len(),
        |i: int|
            match rows[i] {
                Some(value) => Some(model(value)->Ok_0),
                None => None,
            },
    )
}

/// What converting `rows` gives where the mapping is `model`: the rows are
/// taken in turn, a row without a value gives a null, a row with a value
/// gives what `model` maps it to, and the first error ends it.
pub open spec fn map_rows<O, P>(
    model: spec_fn(O) -> Result<P, MappingError>,
    rows: Seq<Option<O>>,
) -> Result<Seq<Option<P>>, MappingError>
    decreases rows.len(),
{
    if rows.len() == 0 {
        Ok(Seq::empty())
    } else {
        match map_rows(model, rows.drop_last()) {
            Err(error) => Err(error),
            Ok(array) => match rows.last() {
                None => Ok(array.push(None)),
                Some(value) => match model(value) {
                    Ok(element) => Ok(array.push(Some(element))),
                    Err(error) => Err(error),
                },
            },
        }
    }
}

/// The array or error of a conversion, the array as a sequence.
pub open spec fn outcome<P>(filled: Result<Vec<Option<P>>, MappingError>) -> Result<
    Seq<Option<P>>,
    MappingError,
> {
    match filled {
        Ok(array) => Ok(array@),
        Err(error) => Err(error),
    }
}

/// Where `model` maps every value of `rows`, converting them gives an array.
proof fn lemma_map_rows_ok<O, P>(model: spec_fn(O) -> Result<P, MappingError>, rows: Seq<Option<O>>)
    requires
        forall|i: int|
            0 <= i < rows.len() ==> (#[trigger] rows[i] matches Some(value) ==> model(value) is Ok),
    ensures
        map_rows(model, rows) == Ok::<Seq<Option<P>>, MappingError>(mapped_all(model, rows)),
    decreases rows.len(),
{
    if rows.len() > 0 {
        let front = rows.drop_last();
        assert forall|i: int| 0 <= i < front.len() implies (#[trigger] front[i] matches Some(value)
            ==> model(value) is Ok) by {
            assert(front[i] == rows[i]);
        }
        lemma_map_rows_ok(model, front);
        assert(rows.last() == rows[rows.len() - 1]);
        assert(mapped_all(model, front).push(mapped_all(model, rows).last()) == mapped_all(
            model,
            rows,
        ));
    } else {
        assert(mapped_all(model, rows) == Seq::<Option<P>>::empty());
    }
}

/// Where `model` fails on row `i` and on none before it, converting the
/// rows gives the error of row `i`.
proof fn lemma_map_rows_err<O, P>(
    model: spec_fn(O) -> Result<P, MappingError>,
    rows: Seq<Option<O>>,
    i: int,
)
    requires
        0 <= i < rows.len(),
        rows[i] matches Some(value) && model(value) is Err,
        forall|j: int| 0 <= j < i ==> (#[trigger] rows[j] matches Some(value) ==> model(value) is Ok),
    ensures
        map_rows(model, rows) == Err::<Seq<Option<P>>, MappingError>(
            model(rows[i]->Some_0)->Err_0,
        ),
    decreases rows.len(),
{
    let front = rows.drop_last();
    if i == rows.len() - 1 {
        assert forall|j: int| 0 <= j < front.len() implies (#[trigger] front[j] matches Some(value)
            ==> model(value) is Ok) by {
            assert(front[j] == rows[j]);
        }
        lemma_map_rows_ok(model, front);
        assert(rows.last() == rows[i]);
    } else {
        assert(front[i] == rows[i]);
        assert forall|j: int| 0 <= j < i implies (#[trigger] front[j] matches Some(value) ==> model(
            value,
        ) is Ok) by {
            assert(front[j] == rows[j]);
        }
        lemma_map_rows_err(model, front, i);
    }
}

/// A mapping that returns for each value what `model` says leaves the
/// conversion no choice: what it gives is `map_rows` of the rows.
pub proof fn lemma_conversion_is_determined<O, P, F: Fn(&O) -> Result<P, MappingError>>(
    f: F,
    model: spec_fn(O) -> Result<P, MappingError>,
    rows: Seq<Option<O>>,
    filled: Result<Vec<Option<P>>, MappingError>,
)
    requires
        computes(f, model),
        converts(f, rows, filled),
    ensures
        outcome(filled) == map_rows(model, rows),
{
    match filled {
        Ok(array) => {
            assert forall|i: int| 0 <= i < rows.len() implies (#[trigger] rows[i] matches Some(
                value,
            ) ==> model(value) is Ok) by {
                if rows[i] is Some {
                    assert(maps_to(f, rows[i]->Some_0, Ok(array@[i]->Some_0)));
                }
            }
            lemma_map_rows_ok(model, rows);
            assert forall|i: int| 0 <= i < rows.len() implies array@[i] == mapped_all(
                model,
                rows,
            )[i] by {
                if rows[i] is Some {
                    assert(maps_to(f, rows[i]->Some_0, Ok(array@[i]->Some_0)));
                }
            }
            assert(array@ == mapped_all(model, rows));
        },
        Err(error) => {
            let i = choose|i: int| fails_first_at(f, rows, i, error);
            assert forall|j: int| 0 <= j < i implies (#[trigger] rows[j] matches Some(value)
                ==> model(value) is Ok) by {
                if rows[j] is Some {
                    let element = choose|element: P| maps_to(f, rows[j]->Some_0, Ok(element));
                    assert(maps_to(f, rows[j]->Some_0, Ok(element)));
                }
            }
            assert(maps_to(f, rows[i]->Some_0, Err(error)));
            lemma_map_rows_err(model, rows, i);
        },
    }
}

/// If the mapping fails on a row, the conversion returns an error and no
/// array: the error of that row, where the mapping fails on no row before it.
pub proof fn lemma_mapping_failure_is_returned<O, P, F: Fn(&O) -> Result<P, MappingError>>(
    f: F,
    model: spec_fn(O) -> Result<P, MappingError>,
    rows: Seq<Option<O>>,
    filled: Result<Vec<Option<P>>, MappingError>,
    i: int,
)
    requires
        computes(f, model),
        converts(f, rows, filled),
        0 <= i < rows.len(),
        rows[i] matches Some(value) && model(value) is Err,
    ensures
        filled is Err,
        (forall|j: int|
            0 <= j < i ==> (#[trigger] rows[j] matches Some(value) ==> model(value) is Ok))
            ==> filled == Err::<Vec<Option<P>>, MappingError>(model(rows[i]->Some_0)->Err_0),
{
    if filled is Ok {
        assert(maps_to(f, rows[i]->Some_0, Ok(filled->Ok_0@[i]->Some_0)));
    }
    if forall|j: int|
        0 <= j < i ==> (#[trigger] rows[j] matches Some(value) ==> model(value) is Ok) {
        lemma_conversion_is_determined(f, model, rows, filled);
        lemma_map_rows_err(model, rows, i);
    }
}

/// Rows without a value never reach the mapping: where no row holds a
/// value, the conversion gives an array of nulls, whatever the mapping is.
pub proof fn lemma_absent_rows_bypass_mapping<O, P, F: Fn(&O) -> Result<P, MappingError>>(
    f: F,
    rows: Seq<Option<O>>,
    filled: Result<Vec<Option<P>>, MappingError>,
)
    requires
        converts(f, rows, filled),
        forall|i: int| 0 <= i < rows.len() ==> #[trigger] rows[i] is None,
    ensures
        filled matches Ok(array) && array@ == Seq::new(rows.len(), |i: int| None::<P>),
{
    match filled {
        Ok(array) => {
            assert forall|i: int| 0 <= i < rows.len() implies array@[i] is None by {
                assert(rows[i] is None);
            }
            assert(array@ == Seq::new(rows.len(), |i: int| None::<P>));
        },
        Err(error) => {
            let i = choose|i: int| fails_first_at(f, rows, i, error);
            assert(rows[i] is None);
        },
    }
}

} // verus!
