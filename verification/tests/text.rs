use arrow::array::Array;
use read_strategy::buffers::{BufferDesc, ColumnView};
use read_strategy::text::{
    apply_buffer_limit, check_text, choose_text_strategy, narrow_text_strategy, text_strategy_after_query,
    text_strategy_for_len, wide_text_strategy, ColumnFailure, NarrowText, Platform, SqlType,
    TextStrategy, WideText,
};
use read_strategy::text_array::TextArray;
use read_strategy::ReadStrategy;

#[derive(Debug, PartialEq)]
struct QueryFailed(u32);

fn never_asked() -> Result<isize, QueryFailed> {
    panic!("the display size must not be queried")
}

fn described(chosen: Result<TextStrategy, ColumnFailure<QueryFailed>>) -> BufferDesc {
    chosen.unwrap().buffer_desc()
}

fn strings(array: &TextArray) -> Vec<Option<String>> {
    (0..array.inner.len())
        .map(|i| {
            if array.inner.is_null(i) {
                None
            } else {
                Some(array.inner.value(i).to_string())
            }
        })
        .collect()
}

const OCTETS_10: SqlType = SqlType::Narrow {
    utf8_len: 10,
    utf16_len: 6,
};

const OCTETS_UNKNOWN: SqlType = SqlType::Narrow {
    utf8_len: 0,
    utf16_len: 0,
};

#[test]
fn buffer_limit_cuts_a_longer_length() {
    assert_eq!(apply_buffer_limit(10, Some(5)), Some(5));
}

#[test]
fn buffer_limit_keeps_a_shorter_length() {
    assert_eq!(apply_buffer_limit(10, Some(10)), Some(10));
    assert_eq!(apply_buffer_limit(10, Some(11)), Some(10));
    assert_eq!(apply_buffer_limit(10, None), Some(10));
    assert_eq!(apply_buffer_limit(usize::MAX, None), Some(usize::MAX));
}

#[test]
fn buffer_limit_stands_in_for_an_unknown_length() {
    assert_eq!(apply_buffer_limit(0, Some(5)), Some(5));
    assert_eq!(apply_buffer_limit(0, Some(0)), Some(0));
}

#[test]
fn buffer_limit_has_no_length_for_zero_without_a_limit() {
    assert_eq!(apply_buffer_limit(0, None), None);
}

#[test]
fn octet_length_above_the_maximum_is_cut() {
    let chosen = choose_text_strategy(OCTETS_10, never_asked, Some(5), Platform::Other);
    assert_eq!(described(chosen), BufferDesc::Text { max_str_len: 5 });
}

#[test]
fn octet_length_without_a_maximum_is_kept() {
    let chosen = choose_text_strategy(OCTETS_10, never_asked, None, Platform::Other);
    assert_eq!(described(chosen), BufferDesc::Text { max_str_len: 10 });
}

#[test]
fn zero_octet_length_without_a_maximum_fails() {
    let chosen = choose_text_strategy(OCTETS_UNKNOWN, never_asked, None, Platform::Other);
    match chosen {
        Err(ColumnFailure::ZeroSizedColumn { sql_type }) => assert_eq!(sql_type, OCTETS_UNKNOWN),
        _ => panic!("expected a zero sized column"),
    }
}

#[test]
fn zero_octet_length_takes_the_maximum() {
    let chosen = choose_text_strategy(OCTETS_UNKNOWN, never_asked, Some(5), Platform::Other);
    assert_eq!(described(chosen), BufferDesc::Text { max_str_len: 5 });
}

#[test]
fn text_is_fetched_wide_on_windows() {
    let chosen = choose_text_strategy(OCTETS_10, never_asked, None, Platform::Windows);
    assert_eq!(described(chosen), BufferDesc::WText { max_str_len: 6 });
    let wide = SqlType::Wide {
        utf8_len: 40,
        utf16_len: 20,
    };
    let chosen = choose_text_strategy(wide, never_asked, Some(8), Platform::Windows);
    assert_eq!(described(chosen), BufferDesc::WText { max_str_len: 8 });
    let chosen = choose_text_strategy(OCTETS_UNKNOWN, never_asked, None, Platform::Windows);
    assert!(matches!(
        chosen,
        Err(ColumnFailure::ZeroSizedColumn { .. })
    ));
}

#[test]
fn text_is_fetched_narrow_elsewhere() {
    let wide = SqlType::Wide {
        utf8_len: 40,
        utf16_len: 20,
    };
    let chosen = choose_text_strategy(wide, never_asked, None, Platform::Other);
    assert_eq!(described(chosen), BufferDesc::Text { max_str_len: 40 });
}

#[test]
fn other_types_are_fetched_narrow_with_their_display_size() {
    let date = SqlType::Other {
        display_size: Some(10),
    };
    for platform in [Platform::Windows, Platform::Other] {
        let chosen = choose_text_strategy(date, never_asked, None, platform);
        assert_eq!(described(chosen), BufferDesc::Text { max_str_len: 10 });
        let chosen = choose_text_strategy(date, never_asked, Some(5), platform);
        assert_eq!(described(chosen), BufferDesc::Text { max_str_len: 5 });
    }
}

#[test]
fn display_size_is_queried_where_the_type_fixes_none() {
    let unknown = SqlType::Other { display_size: None };
    let mut asked = 0;
    let chosen = choose_text_strategy(
        unknown,
        || -> Result<isize, QueryFailed> {
            asked += 1;
            Ok(17)
        },
        None,
        Platform::Windows,
    );
    assert_eq!(described(chosen), BufferDesc::Text { max_str_len: 17 });
    assert_eq!(asked, 1);
    let chosen = choose_text_strategy(
        unknown,
        || -> Result<isize, QueryFailed> { Ok(17) },
        Some(12),
        Platform::Other,
    );
    assert_eq!(described(chosen), BufferDesc::Text { max_str_len: 12 });
}

#[test]
fn failed_query_is_an_unknown_string_length() {
    let unknown = SqlType::Other { display_size: None };
    let chosen = choose_text_strategy(
        unknown,
        || -> Result<isize, QueryFailed> { Err(QueryFailed(42)) },
        Some(5),
        Platform::Other,
    );
    match chosen {
        Err(ColumnFailure::UnknownStringLength { sql_type, source }) => {
            assert_eq!(sql_type, unknown);
            assert_eq!(source, QueryFailed(42));
        }
        _ => panic!("expected an unknown string length"),
    }
}

#[test]
fn negative_display_size_counts_as_zero() {
    let unknown = SqlType::Other { display_size: None };
    let chosen = text_strategy_after_query::<QueryFailed>(unknown, Platform::Other, Ok(-4), None);
    assert!(matches!(
        chosen,
        Err(ColumnFailure::ZeroSizedColumn { .. })
    ));
    let chosen =
        text_strategy_after_query::<QueryFailed>(unknown, Platform::Other, Ok(-4), Some(9));
    assert_eq!(described(chosen), BufferDesc::Text { max_str_len: 9 });
    let chosen = text_strategy_after_query::<QueryFailed>(unknown, Platform::Other, Ok(0), None);
    assert!(matches!(
        chosen,
        Err(ColumnFailure::ZeroSizedColumn { .. })
    ));
}

#[test]
fn strategy_for_a_known_length() {
    let chosen = text_strategy_for_len::<QueryFailed>(OCTETS_10, Platform::Windows, 3, None);
    assert_eq!(described(chosen), BufferDesc::WText { max_str_len: 3 });
    let chosen = text_strategy_for_len::<QueryFailed>(OCTETS_10, Platform::Other, 3, Some(2));
    assert_eq!(described(chosen), BufferDesc::Text { max_str_len: 2 });
}

#[test]
fn strategies_describe_their_buffers() {
    assert_eq!(
        WideText::new(7).buffer_desc(),
        BufferDesc::WText { max_str_len: 7 }
    );
    assert_eq!(
        NarrowText::new(9).buffer_desc(),
        BufferDesc::Text { max_str_len: 9 }
    );
    assert_eq!(
        wide_text_strategy(4).buffer_desc(),
        BufferDesc::WText { max_str_len: 4 }
    );
    assert_eq!(
        narrow_text_strategy(5).buffer_desc(),
        BufferDesc::Text { max_str_len: 5 }
    );
    assert!(matches!(wide_text_strategy(4), TextStrategy::Wide(_)));
    assert!(matches!(narrow_text_strategy(4), TextStrategy::Narrow(_)));
}

#[test]
fn wide_text_converts_to_utf8() {
    let ab = [0x0041u16, 0x0042];
    let view: ColumnView<'_, u8> = ColumnView::WText(vec![Some(&ab[..])]);
    let array = WideText::new(2).fill_arrow_array(&view).unwrap();
    assert_eq!(strings(&array), vec![Some("AB".to_string())]);
}

#[test]
fn absent_wide_value_is_null_and_not_empty() {
    let empty: [u16; 0] = [];
    let view: ColumnView<'_, u8> = ColumnView::WText(vec![None, Some(&empty[..])]);
    let array = WideText::new(2).fill_arrow_array(&view).unwrap();
    assert_eq!(array.inner.len(), 2);
    assert!(array.inner.is_null(0));
    assert!(!array.inner.is_null(1));
    assert_eq!(array.inner.value(1), "");
    assert_eq!(array.inner.null_count(), 1);
}

#[test]
fn wide_text_converts_every_row() {
    let first: Vec<u16> = "gr\u{fc}n".encode_utf16().collect();
    let second: Vec<u16> = "\u{1F980} crab".encode_utf16().collect();
    let view: ColumnView<'_, u8> = ColumnView::WText(vec![
        Some(&first[..]),
        None,
        Some(&second[..]),
        None,
    ]);
    let array = WideText::new(1).fill_arrow_array(&view).unwrap();
    assert_eq!(
        strings(&array),
        vec![
            Some("gr\u{fc}n".to_string()),
            None,
            Some("\u{1F980} crab".to_string()),
            None
        ]
    );
}

#[test]
fn wide_text_of_an_empty_batch() {
    let view: ColumnView<'_, u8> = ColumnView::WText(vec![]);
    let array = WideText::new(usize::MAX).fill_arrow_array(&view).unwrap();
    assert_eq!(array.inner.len(), 0);
}

#[test]
fn narrow_text_is_taken_as_utf8() {
    let view: ColumnView<'_, u8> = ColumnView::Text(vec![
        Some(&b"plain"[..]),
        None,
        Some("\u{e4}\u{20ac}\u{1F600}".as_bytes()),
        Some(&b""[..]),
    ]);
    let array = NarrowText::new(10).fill_arrow_array(&view).unwrap();
    assert_eq!(
        strings(&array),
        vec![
            Some("plain".to_string()),
            None,
            Some("\u{e4}\u{20ac}\u{1F600}".to_string()),
            Some(String::new())
        ]
    );
}

#[test]
fn narrow_text_of_absent_rows_only() {
    let view: ColumnView<'_, u8> = ColumnView::Text(vec![None, None]);
    let array = NarrowText::new(0).fill_arrow_array(&view).unwrap();
    assert_eq!(strings(&array), vec![None, None]);
}

#[test]
fn chosen_strategy_converts_its_column() {
    let chosen = choose_text_strategy(OCTETS_10, never_asked, None, Platform::Other).unwrap();
    let view: ColumnView<'_, u8> = ColumnView::Text(vec![Some(&b"0123456789"[..]), None]);
    let array = chosen.fill_arrow_array(&view).unwrap();
    assert_eq!(strings(&array), vec![Some("0123456789".to_string()), None]);

    let chosen = choose_text_strategy(OCTETS_10, never_asked, None, Platform::Windows).unwrap();
    let units: Vec<u16> = "\u{3b1}\u{3b2}".encode_utf16().collect();
    let view: ColumnView<'_, u8> = ColumnView::WText(vec![None, Some(&units[..])]);
    let array = chosen.fill_arrow_array(&view).unwrap();
    assert_eq!(strings(&array), vec![None, Some("\u{3b1}\u{3b2}".to_string())]);
}

#[test]
fn text_in_its_encoding_can_be_converted() {
    let narrow: ColumnView<'_, u8> =
        ColumnView::Text(vec![Some("\u{e4}".as_bytes()), None, Some(&b""[..])]);
    assert!(check_text(&narrow));
    let units = [0xD83Du16, 0xDE00, 0x0041];
    let wide: ColumnView<'_, u8> = ColumnView::WText(vec![None, Some(&units[..])]);
    assert!(check_text(&wide));
    let empty: ColumnView<'_, u8> = ColumnView::Text(vec![]);
    assert!(check_text(&empty));
}

#[test]
fn narrow_text_that_is_not_utf8_cannot_be_converted() {
    let latin1 = [0x4Bu8, 0xF6, 0x6C, 0x6E];
    let view: ColumnView<'_, u8> = ColumnView::Text(vec![Some(&b"fine"[..]), Some(&latin1[..])]);
    assert!(!check_text(&view));
    let truncated = [0xE2u8, 0x82];
    let view: ColumnView<'_, u8> = ColumnView::Text(vec![Some(&truncated[..])]);
    assert!(!check_text(&view));
    let surrogate = [0xEDu8, 0xA0, 0x80];
    let view: ColumnView<'_, u8> = ColumnView::Text(vec![None, Some(&surrogate[..])]);
    assert!(!check_text(&view));
}

#[test]
fn malformed_wide_text_cannot_be_converted() {
    let lone = [0x0041u16, 0xD83D];
    let fine = [0x0041u16];
    let view: ColumnView<'_, u8> = ColumnView::WText(vec![Some(&fine[..]), Some(&lone[..])]);
    assert!(!check_text(&view));
    let reversed = [0xDE00u16, 0xD83D];
    let view: ColumnView<'_, u8> = ColumnView::WText(vec![Some(&reversed[..])]);
    assert!(!check_text(&view));
}

#[test]
fn fixed_width_slots_are_no_text() {
    let values = [1i32, 2];
    assert!(!check_text(&ColumnView::Values(&values[..])));
}
