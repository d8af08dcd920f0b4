use read_strategy::buffers::{BufferDesc, ColumnView, Item, NullableSlice, NULL_DATA};
use read_strategy::date_time::Timestamp;

#[test]
fn slot_descriptions_follow_the_type() {
    assert_eq!(i8::buffer_desc(false), BufferDesc::I8 { nullable: false });
    assert_eq!(i16::buffer_desc(true), BufferDesc::I16 { nullable: true });
    assert_eq!(i32::buffer_desc(false), BufferDesc::I32 { nullable: false });
    assert_eq!(i64::buffer_desc(true), BufferDesc::I64 { nullable: true });
    assert_eq!(i64::buffer_desc(false), BufferDesc::I64 { nullable: false });
    assert_eq!(u8::buffer_desc(true), BufferDesc::U8 { nullable: true });
    assert_eq!(
        Timestamp::buffer_desc(true),
        BufferDesc::Timestamp { nullable: true }
    );
}

#[test]
fn nullable_slice_hides_slots_of_absent_rows() {
    let values = [7i32, 8, 9];
    let indicators = [4isize, NULL_DATA, 0];
    let slice = NullableSlice {
        values: &values,
        indicators: &indicators,
    };
    assert_eq!(slice.len(), 3);
    assert!(!slice.is_empty());
    assert_eq!(slice.get(0), Some(&7));
    assert_eq!(slice.get(1), None);
    assert_eq!(slice.get(2), Some(&9));
}

#[test]
fn empty_nullable_slice() {
    let values: [i64; 0] = [];
    let indicators: [isize; 0] = [];
    let slice = NullableSlice {
        values: &values,
        indicators: &indicators,
    };
    assert_eq!(slice.len(), 0);
    assert!(slice.is_empty());
}

#[test]
fn view_of_values_is_only_a_slice() {
    let values = [1u8, 2];
    let view = ColumnView::Values(&values[..]);
    assert_eq!(view.len(), 2);
    assert_eq!(view.as_slice(), Some(&values[..]));
    assert!(view.as_nullable_slice().is_none());
    assert!(view.as_text_view().is_none());
    assert!(view.as_w_text_view().is_none());
}

#[test]
fn view_of_nullable_values_is_only_a_nullable_slice() {
    let values = [1i16, 2, 3];
    let indicators = [0isize, NULL_DATA, 0];
    let view = ColumnView::Nullable(NullableSlice {
        values: &values,
        indicators: &indicators,
    });
    assert_eq!(view.len(), 3);
    assert!(view.as_slice().is_none());
    let slice = view.as_nullable_slice().unwrap();
    assert_eq!(slice.get(1), None);
    assert_eq!(slice.get(2), Some(&3));
    assert!(view.as_text_view().is_none());
    assert!(view.as_w_text_view().is_none());
}

#[test]
fn view_of_text_is_only_text() {
    let view: ColumnView<'_, u8> = ColumnView::Text(vec![Some(&b"ab"[..]), None]);
    assert_eq!(view.len(), 2);
    assert!(view.as_slice().is_none());
    assert!(view.as_nullable_slice().is_none());
    assert_eq!(view.as_text_view().unwrap().len(), 2);
    assert!(view.as_w_text_view().is_none());
}

#[test]
fn view_of_wide_text_is_only_wide_text() {
    let units = [0x41u16];
    let view: ColumnView<'_, u8> = ColumnView::WText(vec![None, Some(&units[..]), None]);
    assert_eq!(view.len(), 3);
    assert!(view.as_text_view().is_none());
    assert_eq!(view.as_w_text_view().unwrap()[1], Some(&units[..]));
}

#[test]
fn view_fits_the_buffer_it_was_bound_as() {
    let values = [1i32, 2];
    let indicators = [0isize, NULL_DATA];
    let plain = ColumnView::Values(&values[..]);
    let nullable = ColumnView::Nullable(NullableSlice {
        values: &values,
        indicators: &indicators,
    });
    let text: ColumnView<'_, i32> = ColumnView::Text(vec![None]);
    let wide: ColumnView<'_, i32> = ColumnView::WText(vec![None]);

    assert!(plain.fits(&BufferDesc::I32 { nullable: false }));
    assert!(!plain.fits(&BufferDesc::I32 { nullable: true }));
    assert!(!plain.fits(&BufferDesc::Text { max_str_len: 4 }));
    assert!(!plain.fits(&BufferDesc::WText { max_str_len: 4 }));

    assert!(nullable.fits(&BufferDesc::I32 { nullable: true }));
    assert!(!nullable.fits(&BufferDesc::I32 { nullable: false }));
    assert!(!nullable.fits(&BufferDesc::Text { max_str_len: 4 }));

    assert!(text.fits(&BufferDesc::Text { max_str_len: 4 }));
    assert!(!text.fits(&BufferDesc::WText { max_str_len: 4 }));
    assert!(!text.fits(&BufferDesc::I64 { nullable: false }));
    assert!(!text.fits(&BufferDesc::Timestamp { nullable: true }));

    assert!(wide.fits(&BufferDesc::WText { max_str_len: 4 }));
    assert!(!wide.fits(&BufferDesc::Text { max_str_len: 4 }));
    assert!(!wide.fits(&BufferDesc::U8 { nullable: true }));
}

#[test]
fn nullable_view_with_too_few_indicators_fits_nothing() {
    let values = [1i8, 2, 3];
    let indicators = [0isize, NULL_DATA];
    let view = ColumnView::Nullable(NullableSlice {
        values: &values,
        indicators: &indicators,
    });
    assert!(!view.fits(&BufferDesc::I8 { nullable: true }));
    assert!(!view.fits(&BufferDesc::I8 { nullable: false }));
}
