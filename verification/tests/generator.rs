use pure_rng::Label;
use pure_rng::PureRandomGenerator;
use std::collections::HashSet;

fn text(s: &str) -> Label {
    Label::Text(s.to_string())
}

fn draw(mut g: PureRandomGenerator) -> u64 {
    g.next_u64()
}

#[test]
fn test_repeatable() {
    let rng = PureRandomGenerator::default();

    let val_1: u64 = draw(rng.seed(&text("lol")));
    let val_2: u64 = draw(rng.seed(&text("lol")));
    assert_eq!(val_1, val_2);

    let rng_2 = rng.seed(&text("foo"));

    let val_3: u64 = draw(rng_2.seed(&text("lol")));
    let val_4: u64 = draw(rng_2.seed(&text("lol")));
    assert_eq!(val_3, val_4);

    assert_ne!(val_1, val_3);

    let rng_3 = rng_2.seed(&text("bar"));

    let val_5: u64 = draw(rng_3.seed(&text("lol")));
    let val_6: u64 = draw(rng_3.seed(&text("lol")));
    assert_eq!(val_5, val_6);

    assert_ne!(val_3, val_5);
    assert_ne!(val_2, val_5);
}

#[test]
fn test_determinism_over_chain() {
    let labels = [
        Label::Text("world".to_string()),
        Label::Unsigned(42),
        Label::Signed(-7),
        Label::Bytes(vec![1, 2, 3]),
    ];
    let run = || {
        let mut g = PureRandomGenerator::new(&Label::Text("seed".to_string()));
        for l in labels.iter() {
            g = g.seed(l);
        }
        let mut vals = Vec::new();
        for _ in 0..10 {
            vals.push(g.next_u64());
        }
        vals
    };
    assert_eq!(run(), run());
}

#[test]
fn test_fork_receiver_unaffected() {
    let parent = PureRandomGenerator::new(&text("root"));
    let before: u64 = draw(parent.seed(&text("probe")));

    // Work the child hard: draws and further forks.
    let mut child = parent.seed(&text("child"));
    for _ in 0..100 {
        child.next_u64();
    }
    let grandchild = child.seed(&Label::Unsigned(5));
    let _ = draw(grandchild);

    // The parent still behaves exactly as before.
    let after: u64 = draw(parent.seed(&text("probe")));
    assert_eq!(before, after);

    // And a sibling fork is unaffected by the child's history.
    let sib_1: u64 = draw(parent.seed(&text("sibling")));
    let sib_2: u64 = draw(parent.seed(&text("sibling")));
    assert_eq!(sib_1, sib_2);
}

#[test]
fn test_advance_on_draw_no_collisions() {
    let mut g = PureRandomGenerator::new(&text("advance"));
    let mut seen: HashSet<u64> = HashSet::new();
    for _ in 0..10_000 {
        assert!(seen.insert(g.next_u64()));
    }
}

#[test]
fn test_label_sensitivity() {
    let root = PureRandomGenerator::new(&text("root"));
    assert_ne!(draw(root.seed(&text("a"))), draw(root.seed(&text("b"))));

    // Low-entropy labels: consecutive integers all map to distinct values.
    let mut seen: HashSet<u64> = HashSet::new();
    for i in 0..1000u64 {
        assert!(seen.insert(draw(root.seed(&Label::Unsigned(i)))));
    }
}

#[test]
fn test_label_kinds_distinct() {
    // The same payload bits under different variants address different forks.
    let root = PureRandomGenerator::new(&text("kinds"));
    let vals = [
        draw(root.seed(&Label::Unsigned(1))),
        draw(root.seed(&Label::Signed(1))),
        draw(root.seed(&Label::Text("1".to_string()))),
        draw(root.seed(&Label::Bytes(vec![1]))),
    ];
    let distinct: HashSet<u64> = vals.iter().copied().collect();
    assert_eq!(distinct.len(), vals.len());
}

#[test]
fn test_seed_sensitivity() {
    assert_ne!(
        draw(PureRandomGenerator::new(&text("x"))),
        draw(PureRandomGenerator::new(&text("y"))),
    );
    let mut seen: HashSet<u64> = HashSet::new();
    for i in 0..1000u64 {
        assert!(seen.insert(draw(PureRandomGenerator::new(&Label::Unsigned(i)))));
    }
}

#[test]
fn test_fixed_seed_scenario() {
    let run = || {
        let rng = PureRandomGenerator::new(&text("initial seed"));
        let sub = rng.seed(&text("a convenient label to differentiate"));
        let mut vals = Vec::new();
        for i in 0..10u64 {
            vals.push(draw(sub.seed(&Label::Unsigned(i))));
        }
        vals
    };
    let first = run();
    let second = run();
    assert_eq!(first, second);
    let distinct: HashSet<u64> = first.iter().copied().collect();
    assert_eq!(distinct.len(), 10);
}

#[test]
fn test_bit_balance() {
    // A crude balance check on a long stream from one evolving generator:
    // every bit position should be set roughly half the time.
    let mut g = PureRandomGenerator::new(&text("balance"));
    let n = 10_000u32;
    let mut counts = [0u32; 64];
    for _ in 0..n {
        let v = g.next_u64();
        for (bit, count) in counts.iter_mut().enumerate() {
            *count += ((v >> bit) & 1) as u32;
        }
    }
    for count in counts.iter() {
        assert!(*count > n * 4 / 10 && *count < n * 6 / 10);
    }
}

#[test]
fn test_next_u32_truncates_next_u64() {
    let mut a = PureRandomGenerator::new(&text("trunc"));
    let mut b = a;
    assert_eq!(a.next_u32(), b.next_u64() as u32);
    // Both copies advanced by one full step, so they stay in lockstep.
    assert_eq!(a.next_u64(), b.next_u64());
}

#[test]
fn test_fill_bytes_matches_draws() {
    let g = PureRandomGenerator::new(&text("fill"));
    let mut filler = g;
    let mut buf = vec![0u8; 16];
    filler.fill_bytes(&mut buf);

    let mut drawer = g;
    let mut expected = Vec::new();
    expected.extend_from_slice(&drawer.next_u64().to_le_bytes());
    expected.extend_from_slice(&drawer.next_u64().to_le_bytes());
    assert_eq!(buf, expected);

    // Both consumed two draws, so they stay in lockstep afterwards.
    assert_eq!(filler.next_u64(), drawer.next_u64());
}

#[test]
fn test_fill_bytes_partial_chunk() {
    let g = PureRandomGenerator::new(&text("partial"));
    let mut filler = g;
    let mut buf = vec![0u8; 5];
    filler.fill_bytes(&mut buf);

    let mut drawer = g;
    let expected = drawer.next_u64().to_le_bytes();
    assert_eq!(buf, expected[..5]);

    // The partial chunk still advanced the state one full step.
    assert_eq!(filler.next_u64(), drawer.next_u64());
}

#[test]
fn test_fill_bytes_empty() {
    let g = PureRandomGenerator::new(&text("empty"));
    let mut filler = g;
    let mut buf: Vec<u8> = Vec::new();
    filler.fill_bytes(&mut buf);
    assert!(buf.is_empty());

    // An empty fill draws nothing.
    let mut untouched = g;
    assert_eq!(filler.next_u64(), untouched.next_u64());
}

#[test]
fn test_default_generators_equal() {
    let a: u64 = draw(PureRandomGenerator::default());
    let b: u64 = draw(PureRandomGenerator::default());
    assert_eq!(a, b);
}

#[test]
fn test_new_equals_default_seed() {
    let l = text("alpha");
    let via_new: u64 = draw(PureRandomGenerator::new(&l));
    let via_default: u64 = draw(PureRandomGenerator::default().seed(&l));
    assert_eq!(via_new, via_default);
}
