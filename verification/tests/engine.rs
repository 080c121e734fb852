use keymeow::Combo;
use keymeow::Corpus;
use keymeow::Finger;
use keymeow::FingerMap;
use keymeow::KeyComponent;
use keymeow::KeyCoord;
use keymeow::Keyboard;
use keymeow::Layout;
use keymeow::LayoutData;
use keymeow::LayoutFormat;
use keymeow::MetricContext;
use keymeow::MetricData;
use keymeow::Pos;

fn matrix() -> Keyboard {
    let mut map: [Vec<KeyCoord>; 10] = Default::default();
    for col in 0u8..10 {
        for row in 0u8..3 {
            let finger = match col {
                0 => Finger::LP,
                1 => Finger::LR,
                2 => Finger::LM,
                3 | 4 => Finger::LI,
                5 | 6 => Finger::RI,
                7 => Finger::RM,
                8 => Finger::RR,
                _ => Finger::RP,
            };
            map[finger.as_usize()].push(KeyCoord {
                pos: Pos { col, row, layer: 0 },
                finger,
            });
        }
    }
    Keyboard {
        keys: FingerMap { map },
        combos: vec![],
        combo_indexes: vec![],
    }
}

fn corpus() -> Corpus {
    let mut char_list = "abcdefghijklmnopqrstuvwxyz"
        .chars()
        .map(|c| vec![c, c.to_uppercase().next().unwrap()])
        .collect::<Vec<Vec<char>>>();
    char_list.extend(vec![
        vec![',', '<'],
        vec!['.', '>'],
        vec!['/', '?'],
        vec!['\'', '\"'],
        vec![';', ':'],
    ]);
    Corpus::with_char_list(char_list)
}

fn component(finger: Finger, keys: &str) -> KeyComponent {
    KeyComponent {
        finger: vec![finger],
        layer: 0,
        keys: keys.chars().collect(),
    }
}

fn semimak_components() -> Vec<KeyComponent> {
    vec![
        component(Finger::LP, "fsx"),
        component(Finger::LR, "lrj"),
        component(Finger::LM, "hnb"),
        component(Finger::LI, "vtmzkq"),
        component(Finger::RI, "'cpwdg"),
        component(Finger::RM, "ue,"),
        component(Finger::RR, "oa."),
        component(Finger::RP, "yi/"),
    ]
}

fn decoded(context: &MetricContext) -> String {
    context
        .layout
        .matrix
        .iter()
        .map(|c| context.corpus.uncorpus_unigram(*c))
        .collect()
}

#[test]
fn test_flexible() {
    let semimak = LayoutData::from_format(LayoutFormat::Flexible(semimak_components()));

    let corpus = corpus();

    let keyboard = matrix();
    let data = MetricData {
        metrics: vec![],
        keyboard,
    };

    let context = MetricContext::new(&semimak, data, corpus).unwrap();
    for (a, b) in context
        .layout
        .matrix
        .iter()
        .map(|c| context.corpus.uncorpus_unigram(*c))
        .zip("fsxlrjhnbvtmzkq'cpwdgue,oa.yi/".chars())
    {
        assert_eq!(
            a,
            b,
            "{}",
            format!("layout matrix {:?} is wrong", context.layout.matrix)
        );
    }
    let new_data = context.flexible_layout_data();
    let LayoutFormat::Flexible(old_components) = semimak.format else {
        panic!("encoding should be flexible")
    };
    let LayoutFormat::Flexible(new_components) = new_data.format else {
        panic!("projection should be flexible")
    };
    for (original, new) in old_components.iter().zip(new_components.iter()) {
        for (i, key) in new.keys.iter().enumerate() {
            if i >= original.keys.len() {
                continue;
            }
            assert_eq!(*key, original.keys[i]);
        }
    }
}

#[test]
fn test_fixed() {
    let slots: Vec<Option<char>> = "\0sxlrjhnbvtmzkq'cpwdgue,oa.yi/"
        .chars()
        .map(|c| if c == '\0' { None } else { Some(c) })
        .collect();
    let semimak = LayoutData::from_format(LayoutFormat::Fixed(slots));

    let corpus = corpus();

    let keyboard = matrix();
    let data = MetricData {
        metrics: vec![],
        keyboard,
    };

    let context = MetricContext::new(&semimak, data, corpus).unwrap();
    for (a, b) in context
        .layout
        .matrix
        .iter()
        .map(|c| context.corpus.uncorpus_unigram(*c))
        .zip("\0sxlrjhnbvtmzkq'cpwdgue,oa.yi/".chars())
    {
        assert_eq!(
            a,
            b,
            "{}",
            format!("layout matrix {:?} is wrong", context.layout.matrix)
        )
    }
}

/// A geometry of ten fingers with three keys each (30 physical keys)
/// and one combo spanning the two index fingers.
fn combo_keyboard() -> Keyboard {
    let mut map: [Vec<KeyCoord>; 10] = Default::default();
    for col in 0u8..10 {
        for row in 0u8..3 {
            let finger = Finger::from_usize(col as usize);
            map[finger.as_usize()].push(KeyCoord {
                pos: Pos { col, row, layer: 0 },
                finger,
            });
        }
    }
    let li = map[Finger::LI.as_usize()][0];
    let ri = map[Finger::RI.as_usize()][0];
    Keyboard {
        keys: FingerMap { map },
        combos: vec![Combo {
            coords: vec![li, ri],
        }],
        combo_indexes: vec![],
    }
}

#[test]
fn overflow_claims_combo_slot() {
    // 4 characters on a 3-key finger: the first 3 fill the finger, the
    // 4th lands in the combo slot touching it
    let kb = combo_keyboard();
    let encoding = LayoutData::from_format(LayoutFormat::Flexible(vec![component(
        Finger::LI,
        "abcd",
    )]));
    let corpus = corpus();
    let lay = MetricContext::layout_matrix(&encoding, &kb, &corpus).unwrap();
    assert_eq!(lay.matrix.len(), 31);
    let decoded: Vec<char> = lay
        .matrix
        .iter()
        .map(|c| corpus.uncorpus_unigram(*c))
        .collect();
    let li = Finger::LI.as_usize();
    assert_eq!(&decoded[li * 3..li * 3 + 3], &['a', 'b', 'c']);
    assert_eq!(decoded[30], 'd');
}

#[test]
fn overflow_drops_when_no_combo_free() {
    // capacity exceeded by 2 with one free combo: exactly one claimed,
    // the last character dropped
    let kb = combo_keyboard();
    let encoding = LayoutData::from_format(LayoutFormat::Flexible(vec![component(
        Finger::LI,
        "abcde",
    )]));
    let corpus = corpus();
    let lay = MetricContext::layout_matrix(&encoding, &kb, &corpus).unwrap();
    let decoded: Vec<char> = lay
        .matrix
        .iter()
        .map(|c| corpus.uncorpus_unigram(*c))
        .collect();
    let li = Finger::LI.as_usize();
    assert_eq!(&decoded[li * 3..li * 3 + 3], &['a', 'b', 'c']);
    assert_eq!(decoded[30], 'd');
    assert!(!decoded.contains(&'e'));
}

#[test]
fn combo_not_claimed_when_taken_earlier() {
    // an earlier component touching the combo's other finger claims the
    // slot first; the later overflow character is dropped
    let kb = combo_keyboard();
    let encoding = LayoutData::from_format(LayoutFormat::Flexible(vec![
        component(Finger::RI, "wxyz"),
        component(Finger::LI, "abcd"),
    ]));
    let corpus = corpus();
    let lay = MetricContext::layout_matrix(&encoding, &kb, &corpus).unwrap();
    let decoded: Vec<char> = lay
        .matrix
        .iter()
        .map(|c| corpus.uncorpus_unigram(*c))
        .collect();
    assert_eq!(decoded[30], 'z');
    assert!(!decoded.contains(&'d'));
}

#[test]
fn fixed_too_long_is_rejected() {
    // 31 slots against 30 physical keys and no combos: None, no panic
    let kb = matrix();
    let slots: Vec<Option<char>> = (0..31).map(|_| Some('a')).collect();
    let encoding = LayoutData::from_format(LayoutFormat::Fixed(slots));
    let corpus = corpus();
    assert!(MetricContext::layout_matrix(&encoding, &kb, &corpus).is_none());
}

#[test]
fn fixed_shorter_is_padded() {
    let kb = matrix();
    let encoding = LayoutData::from_format(LayoutFormat::Fixed(vec![Some('a'), Some('b')]));
    let corpus = corpus();
    let lay = MetricContext::layout_matrix(&encoding, &kb, &corpus).unwrap();
    assert_eq!(lay.matrix.len(), 30);
    assert_eq!(corpus.uncorpus_unigram(lay.matrix[0]), 'a');
    assert_eq!(corpus.uncorpus_unigram(lay.matrix[1]), 'b');
    for i in 2..30 {
        assert_eq!(lay.matrix[i], 0);
    }
}

#[test]
fn capacity_conservation_concrete() {
    // under- and over-filled fingers both contribute exactly 3 slots
    let kb = combo_keyboard();
    let encoding = LayoutData::from_format(LayoutFormat::Flexible(vec![
        component(Finger::LP, "q"),
        component(Finger::LR, "abcd"),
    ]));
    let corpus = corpus();
    let lay = MetricContext::layout_matrix(&encoding, &kb, &corpus).unwrap();
    assert_eq!(lay.matrix.len(), 31);
    let decoded: Vec<char> = lay
        .matrix
        .iter()
        .map(|c| corpus.uncorpus_unigram(*c))
        .collect();
    assert_eq!(&decoded[0..3], &['q', '\0', '\0']);
    assert_eq!(&decoded[3..6], &['a', 'b', 'c']);
}

#[test]
fn order_determinism_concrete() {
    let kb = combo_keyboard();
    let encoding = LayoutData::from_format(LayoutFormat::Flexible(semimak_components()));
    let corpus = corpus();
    let m1 = MetricContext::layout_matrix(&encoding, &kb, &corpus).unwrap();
    let m2 = MetricContext::layout_matrix(&encoding, &kb, &corpus).unwrap();
    assert_eq!(m1.matrix, m2.matrix);
}

#[test]
fn fixed_round_trip_concrete() {
    let kb = matrix();
    let corpus = corpus();
    let encoding = LayoutData::from_format(LayoutFormat::Fixed(
        "qwertyuiopasdfghjkl;zxcvbnm,./"
            .chars()
            .map(Some)
            .collect(),
    ));
    let context = MetricContext::new(
        &encoding,
        MetricData {
            metrics: vec![],
            keyboard: kb,
        },
        corpus,
    )
    .unwrap();
    let projected = context.fixed_layout_data();
    let reresolved =
        MetricContext::layout_matrix(&projected, &context.keyboard, &context.corpus).unwrap();
    assert_eq!(reresolved.matrix, context.layout.matrix);
}

#[test]
fn multi_candidate_takes_first_free_finger() {
    let kb = combo_keyboard();
    // fill LP completely, then offer a multi-candidate component
    // preferring LP: the character must land on LR instead
    let encoding = LayoutData::from_format(LayoutFormat::Flexible(vec![
        component(Finger::LP, "abc"),
        KeyComponent {
            finger: vec![Finger::LP, Finger::LR],
            layer: 0,
            keys: vec!['z'],
        },
    ]));
    let corpus = corpus();
    let lay = MetricContext::layout_matrix(&encoding, &kb, &corpus).unwrap();
    let decoded: Vec<char> = lay
        .matrix
        .iter()
        .map(|c| corpus.uncorpus_unigram(*c))
        .collect();
    assert_eq!(&decoded[0..3], &['a', 'b', 'c']);
    assert_eq!(decoded[3], 'z');
}

#[test]
fn multi_candidate_places_only_first_key() {
    let kb = combo_keyboard();
    let encoding = LayoutData::from_format(LayoutFormat::Flexible(vec![KeyComponent {
        finger: vec![Finger::LM, Finger::LI],
        layer: 0,
        keys: vec!['a', 'b'],
    }]));
    let corpus = corpus();
    let lay = MetricContext::layout_matrix(&encoding, &kb, &corpus).unwrap();
    let decoded: Vec<char> = lay
        .matrix
        .iter()
        .map(|c| corpus.uncorpus_unigram(*c))
        .collect();
    assert_eq!(decoded[6], 'a');
    assert!(!decoded.contains(&'b'));
}

#[test]
fn empty_flexible_resolves_to_sentinels() {
    let kb = combo_keyboard();
    let encoding = LayoutData::from_format(LayoutFormat::Flexible(vec![]));
    let corpus = corpus();
    let lay = MetricContext::layout_matrix(&encoding, &kb, &corpus).unwrap();
    assert_eq!(lay.matrix.len(), 31);
    assert!(lay.matrix.iter().all(|&s| s == 0));
}

#[test]
fn empty_fixed_resolves_to_sentinels() {
    let kb = matrix();
    let encoding = LayoutData::from_format(LayoutFormat::Fixed(vec![]));
    let corpus = corpus();
    let lay = MetricContext::layout_matrix(&encoding, &kb, &corpus).unwrap();
    assert_eq!(lay.matrix.len(), 30);
    assert!(lay.matrix.iter().all(|&s| s == 0));
}

#[test]
fn set_layout_replaces_matrix() {
    let kb = matrix();
    let corpus = corpus();
    let first = LayoutData::from_format(LayoutFormat::Fixed(vec![Some('a')]));
    let mut context = MetricContext::new(
        &first,
        MetricData {
            metrics: vec![],
            keyboard: kb,
        },
        corpus,
    )
    .unwrap();
    let second = LayoutData::from_format(LayoutFormat::Fixed(vec![Some('b')]));
    assert!(context.set_layout(&second).is_some());
    assert_eq!(context.corpus.uncorpus_unigram(context.layout.matrix[0]), 'b');

    let bad = LayoutData::from_format(LayoutFormat::Fixed((0..31).map(|_| Some('c')).collect()));
    assert!(context.set_layout(&bad).is_none());
    assert_eq!(context.corpus.uncorpus_unigram(context.layout.matrix[0]), 'b');
}
