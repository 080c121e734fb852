use keymeow::Combo;
use keymeow::Corpus;
use keymeow::Finger;
use keymeow::FingerKind;
use keymeow::FingerMap;
use keymeow::Hand;
use keymeow::KeyCoord;
use keymeow::Keyboard;
use keymeow::Layout;
use keymeow::LayoutData;
use keymeow::LayoutFormat;
use keymeow::Pos;

fn key(col: u8, row: u8, finger: Finger) -> KeyCoord {
    KeyCoord {
        pos: Pos { col, row, layer: 0 },
        finger,
    }
}

/// Two fingers with two keys each, one combo over both columns.
fn small_keyboard() -> Keyboard {
    let mut map: [Vec<KeyCoord>; 10] = Default::default();
    map[Finger::LI.as_usize()] = vec![key(0, 0, Finger::LI), key(0, 1, Finger::LI)];
    map[Finger::RI.as_usize()] = vec![key(1, 0, Finger::RI), key(1, 1, Finger::RI)];
    Keyboard {
        keys: FingerMap { map },
        combos: vec![Combo {
            coords: vec![key(0, 1, Finger::LI), key(1, 1, Finger::RI)],
        }],
        combo_indexes: vec![],
    }
}

#[test]
fn finger_order_and_kinds() {
    assert_eq!(Finger::LP.as_usize(), 0);
    assert_eq!(Finger::RP.as_usize(), 9);
    assert_eq!(Finger::from_usize(4).as_usize(), 4);
    assert_eq!(Finger::LT.hand(), Hand::Left);
    assert_eq!(Finger::RI.hand(), Hand::Right);
    assert_eq!(Finger::LT.kind(), FingerKind::Thumb);
    assert_eq!(Finger::RM.kind(), FingerKind::Middle);
    assert_eq!(Finger::LP.kind(), FingerKind::Pinky);
    let fm = FingerMap {
        map: [0, 1, 2, 3, 4, 5, 6, 7, 8, 9],
    };
    assert_eq!(*fm.get(Finger::LI), 3);
}

#[test]
fn corpus_interns_and_resolves() {
    let corpus = Corpus::with_char_list(vec![vec!['a', 'A'], vec!['b'], vec!['a']]);
    // 'a' appears twice in the groups but is interned once
    assert_eq!(corpus.chars, vec!['a', 'A', 'b']);
    let sa = corpus.corpus_char('a');
    assert_eq!(corpus.uncorpus_unigram(sa), 'a');
    assert_eq!(corpus.corpus_char('\0'), 0);
    assert_eq!(corpus.corpus_char('z'), 0);
    assert_eq!(corpus.uncorpus_unigram(0), '\0');
    assert_eq!(corpus.uncorpus_unigram(99), '\0');
}

#[test]
fn process_combo_indexes_resolves_positions() {
    let mut kb = small_keyboard();
    assert!(kb.combos_resolvable());
    assert_eq!(kb.total_keys(), Some(4));
    kb.process_combo_indexes();
    // flat order: LI keys at 0 and 1, RI keys at 2 and 3; the combo's
    // coordinates are the second key of each column
    assert_eq!(kb.combo_indexes, vec![vec![1, 3]]);
}

#[test]
fn combos_resolvable_detects_bad_position() {
    let mut kb = small_keyboard();
    kb.combos = vec![Combo {
        coords: vec![key(7, 7, Finger::LI)],
    }];
    assert!(!kb.combos_resolvable());
}

#[test]
fn layout_swap_exchanges_slots() {
    let mut layout = Layout {
        matrix: vec![10, 20, 30],
    };
    layout.swap(0, 2);
    assert_eq!(layout.matrix, vec![30, 20, 10]);
}

#[test]
fn layout_data_builders() {
    let data = LayoutData::from_format(LayoutFormat::Fixed(vec![]))
        .name("semimak".to_string())
        .authors(vec!["semi".to_string()])
        .note("a note".to_string());
    assert_eq!(data.name, "semimak");
    assert_eq!(data.authors, vec!["semi".to_string()]);
    assert_eq!(data.note, Some("a note".to_string()));
}

#[test]
fn fixed_projection_decodes_sentinel_to_none() {
    let corpus = Corpus::with_char_list(vec![vec!['a', 'b']]);
    let layout = Layout {
        matrix: vec![corpus.corpus_char('a'), 0, corpus.corpus_char('b')],
    };
    let data = LayoutData::fixed_from_layout(&layout, &corpus);
    let LayoutFormat::Fixed(slots) = data.format else {
        panic!("projection should be fixed")
    };
    assert_eq!(slots, vec![Some('a'), None, Some('b')]);
}

#[test]
fn flexible_projection_emits_combo_component() {
    let kb = small_keyboard();
    let corpus = Corpus::with_char_list(vec![vec!['a', 'b', 'c']]);
    let layout = Layout {
        matrix: vec![
            corpus.corpus_char('a'),
            0,
            corpus.corpus_char('b'),
            0,
            corpus.corpus_char('c'),
        ],
    };
    let data = LayoutData::flexible_from_keyboard_layout(&kb, &layout, &corpus);
    let LayoutFormat::Flexible(comps) = data.format else {
        panic!("projection should be flexible")
    };
    assert_eq!(comps.len(), 3);
    assert_eq!(comps[0].finger, vec![Finger::LI]);
    assert_eq!(comps[0].keys, vec!['a']);
    assert_eq!(comps[1].finger, vec![Finger::RI]);
    assert_eq!(comps[1].keys, vec!['b']);
    // the combo component carries every finger the combo touches
    assert_eq!(comps[2].finger, vec![Finger::LI, Finger::RI]);
    assert_eq!(comps[2].keys, vec!['c']);
}
