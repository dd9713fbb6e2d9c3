use invoicer::layout::{layout_table, ItemTexts, COLUMN_GAP, LINE_HEIGHT, RIGHT};
use invoicer::metrics::{split_words, wrap_text, FontMetrics};
use invoicer::wrap::wrap_words;

fn font() -> FontMetrics {
    FontMetrics { units_per_em: 1000, advances: vec![('i', 250), ('m', 800)], default_advance: 500, space_advance: 250 }
}

#[test]
fn measure_sums_words_and_spaces() {
    let f = font();
    assert_eq!(f.measure("ab cd", 10), 22500);
    assert_eq!(f.measure("", 10), 0);
    assert_eq!(f.measure("  ab   cd ", 10), 22500);
    assert_eq!(f.measure("im", 12), 12600);
    assert_eq!(f.advance('m'), 800);
    assert_eq!(f.advance('x'), 500);
}

#[test]
fn words_are_runs_without_spaces() {
    assert_eq!(split_words("  ab  c d "), vec!["ab".to_string(), "c".to_string(), "d".to_string()]);
    assert!(split_words("").is_empty());
    assert!(split_words("   ").is_empty());
}

#[test]
fn wrap_of_empty_text_has_no_lines() {
    assert!(wrap_text("", &font(), 10, 50000).is_empty());
    assert!(wrap_words(&vec![], &vec![], 1, 10).is_empty());
}

#[test]
fn wrap_keeps_the_word_that_reaches_the_width() {
    let f = font();
    assert_eq!(wrap_text("aa bb cc", &f, 10, 22500), vec!["aa bb".to_string(), "cc".to_string()]);
    assert_eq!(wrap_text("aa bb cc", &f, 10, 22501), vec!["aa bb cc".to_string()]);
    assert_eq!(wrap_text("aa bb cc", &f, 10, 10000), vec!["aa".to_string(), "bb".to_string(), "cc".to_string()]);
}

#[test]
fn wide_word_is_never_split() {
    let f = font();
    let lines = wrap_text("a verylongword b", &f, 10, 3000);
    assert_eq!(lines, vec!["a".to_string(), "verylongword".to_string(), "b".to_string()]);
    let words = vec!["x".to_string(), "huge".to_string()];
    let lines = wrap_words(&words, &vec![1, 100], 1, 50);
    assert_eq!(lines, vec!["x huge".to_string()]);
    assert_eq!(lines.join(" "), words.join(" "));
}

#[test]
fn table_columns_follow_the_widest_texts() {
    let f = font();
    let rows = vec![
        ItemTexts {
            quantity: "1.5 hod".to_string(),
            description: "aa bb cc dd".to_string(),
            unit_price: "350,00 Kč".to_string(),
            total: "525,00 Kč".to_string(),
        },
        ItemTexts {
            quantity: "3 ks".to_string(),
            description: "".to_string(),
            unit_price: "1 000,00 Kč".to_string(),
            total: "3 000,00 Kč".to_string(),
        },
    ];
    let t = layout_table(&f, &rows, "CENA ZA MJ", "CELKEM", "3 525,00 Kč", 100000);
    let widest_total = f.measure("3 000,00 Kč", 10).max(f.measure("CELKEM", 10));
    assert_eq!(t.price_right, RIGHT - widest_total - COLUMN_GAP);
    for (row, placed) in rows.iter().zip(t.rows.iter()) {
        assert_eq!(placed.total_x + f.measure(&row.total, 10), RIGHT);
        assert_eq!(placed.unit_price_x + f.measure(&row.unit_price, 10), t.price_right);
    }
    assert_eq!(t.rows[0].y, 100000 + LINE_HEIGHT);
    assert_eq!(t.rows[1].y, t.rows[0].y + t.rows[0].height);
    assert_eq!(t.rows[0].height, LINE_HEIGHT * t.rows[0].description_lines.len().max(1) as u128);
    assert_eq!(t.rows[1].height, LINE_HEIGHT);
    assert_eq!(t.rule_y, t.rows[1].y + t.rows[1].height);
    assert_eq!(t.grand_total_x + f.measure("3 525,00 Kč", 14), RIGHT);
}
