use seat_finder::anneal::Annealer;
use seat_finder::config::{parse_run_config, ErrorKind};
use seat_finder::model::{Coordinate, Seat, SeatingArrangement, Student, Table};
use seat_finder::perfect::is_perfect_seating;
use seat_finder::polish::Polisher;
use seat_finder::scoring::{count_gaps, evaluate_seating, evaluate_table, BonusConfig, SeatCredit, TableTally};
use seat_finder::seats::{check_coordinates, free_seats};
use seat_finder::swap::{swap_at, swap_seats};
use seat_finder::wishes::WishIndex;

fn name(s: &str) -> Option<String> {
    Some(s.to_string())
}

fn row(names: &[Option<&str>]) -> Vec<Option<String>> {
    names.iter().map(|n| n.map(|s| s.to_string())).collect()
}

fn student(n: &str, wishes: &[&str]) -> Student {
    Student { name: n.to_string(), wishes: wishes.iter().map(|w| w.to_string()).collect() }
}

fn table(top: &[Option<&str>], bottom: &[Option<&str>]) -> Table {
    Table { top: row(top), bottom: row(bottom), bonus_left: None, bonus_right: None }
}

fn coord(table: usize, section: &str, index: Option<usize>) -> Coordinate {
    Coordinate { table, section: section.to_string(), index }
}

/// Floating-point score of a tally: each credit in tenths times the
/// student's weight, amplified by the bonus parameter when non-zero, less
/// one hundred per gap.
fn score(t: &TableTally, weights: &[f64], bonus: f64) -> f64 {
    let mut s = 0.0;
    let credits = t.top.iter().chain(t.bottom.iter()).chain([&t.bonus_left, &t.bonus_right]);
    for c in credits.flatten() {
        let base = c.tenths as f64 / 10.0 * weights[c.student];
        s += if c.tenths > 0 { base * bonus } else { base };
    }
    s - 100.0 * (t.top_gaps + t.bottom_gaps) as f64
}

fn total(a: &SeatingArrangement, idx: &WishIndex, cfg: BonusConfig, weights: &[f64], bonus: f64) -> f64 {
    evaluate_seating(a, idx, cfg).iter().map(|t| score(t, weights, bonus)).sum()
}

fn occupants(a: &SeatingArrangement) -> Vec<String> {
    let mut v: Vec<String> = Vec::new();
    for t in &a.tables {
        for s in t.top.iter().chain(t.bottom.iter()).chain([&t.bonus_left, &t.bonus_right]) {
            if let Some(n) = s {
                v.push(n.clone());
            }
        }
    }
    v.sort();
    v
}

fn same(a: &SeatingArrangement, b: &SeatingArrangement) -> bool {
    a.tables.len() == b.tables.len()
        && a.tables.iter().zip(b.tables.iter()).all(|(x, y)| {
            x.top == y.top && x.bottom == y.bottom && x.bonus_left == y.bonus_left && x.bonus_right == y.bonus_right
        })
}

#[test]
fn gap_penalty_counts_inner_empty_slots() {
    let idx = WishIndex::new(vec![student("A", &[]), student("B", &[])]);
    let t = table(&[Some("A"), None, None, Some("B")], &[None, None, None, None]);
    let tally = evaluate_table(&t, &idx, BonusConfig::NoBonus);
    assert_eq!(tally.top_gaps, 2);
    assert_eq!(tally.bottom_gaps, 0);
    assert_eq!(score(&tally, &[1.0, 1.0], 1.0), -200.0);
}

#[test]
fn diagonal_neighbour_credit() {
    let idx = WishIndex::new(vec![student("A", &["B"]), student("B", &[])]);
    let t = table(&[Some("A"), None, None], &[None, Some("B"), None]);
    let tally = evaluate_table(&t, &idx, BonusConfig::NoBonus);
    assert_eq!(tally.top[0], Some(SeatCredit { student: 0, tenths: 8 }));
    assert_eq!(tally.bottom[1], Some(SeatCredit { student: 1, tenths: 0 }));
    assert_eq!(tally.top_gaps + tally.bottom_gaps, 0);
    assert!((score(&tally, &[1.0, 1.0], 2.0) - 1.6).abs() < 1e-9);
}

#[test]
fn bonus_left_seat_credit() {
    let idx = WishIndex::new(vec![
        student("B", &["A", "Y"]),
        student("A", &[]),
        student("X", &[]),
        student("Y", &[]),
        student("Z", &[]),
    ]);
    let mut t = table(&[Some("A"), Some("X")], &[Some("Y"), Some("Z")]);
    t.bonus_left = name("B");
    let tally = evaluate_table(&t, &idx, BonusConfig::Both);
    assert_eq!(tally.bonus_left, Some(SeatCredit { student: 0, tenths: 20 }));
    assert!((score(&tally, &[1.0, 1.0, 1.0, 1.0, 1.0], 1.0) - 2.0).abs() < 1e-9);
    let none = evaluate_table(&t, &idx, BonusConfig::NoBonus);
    assert_eq!(none.bonus_left, None);
}

#[test]
fn bonus_right_looks_at_top_end() {
    let idx = WishIndex::new(vec![student("R", &["P", "Q"]), student("P", &[]), student("Q", &[])]);
    let mut t = table(&[None, None, Some("P")], &[None, None, Some("Q")]);
    t.bonus_right = name("R");
    let tally = evaluate_table(&t, &idx, BonusConfig::Right);
    assert_eq!(tally.bonus_right, Some(SeatCredit { student: 0, tenths: 20 }));
    assert_eq!(tally.bonus_left, None);
}

#[test]
fn orthogonal_and_diagonal_mix() {
    let idx = WishIndex::new(vec![student("M", &["L", "R", "D", "E", "F"])]);
    let t = table(&[Some("L"), Some("M"), Some("R")], &[Some("D"), Some("E"), Some("F")]);
    let tally = evaluate_table(&t, &idx, BonusConfig::NoBonus);
    // two row neighbours, the seat opposite, and two diagonals
    assert_eq!(tally.top[1], Some(SeatCredit { student: 0, tenths: 46 }));
    // unknown names earn no credit
    assert_eq!(tally.top[0], None);
}

#[test]
fn unknown_directory_entry_first_wins() {
    let idx = WishIndex::new(vec![student("A", &["B"]), student("A", &[]), student("B", &[])]);
    assert_eq!(idx.lookup(&"A".to_string()), Some(0));
    assert_eq!(idx.lookup(&"C".to_string()), None);
    assert!(idx.wishes_for(0, &"B".to_string()));
    assert!(!idx.wishes_for(1, &"B".to_string()));
}

#[test]
fn gaps_of_rows() {
    assert_eq!(count_gaps(&row(&[])), 0);
    assert_eq!(count_gaps(&row(&[None, None])), 0);
    assert_eq!(count_gaps(&row(&[None, Some("a"), None, Some("b"), None, Some("c")])), 2);
    assert_eq!(count_gaps(&row(&[Some("a"), Some("b")])), 0);
}

#[test]
fn swap_within_and_across_tables() {
    let mut a = SeatingArrangement {
        tables: vec![table(&[Some("A"), None], &[Some("B"), None]), table(&[Some("C")], &[None])],
    };
    swap_seats(&mut a, &coord(0, "top", Some(0)), &coord(0, "top", Some(1)));
    assert_eq!(a.tables[0].top, row(&[None, Some("A")]));
    swap_seats(&mut a, &coord(0, "bottom", Some(0)), &coord(1, "top", Some(0)));
    assert_eq!(a.tables[0].bottom, row(&[Some("C"), None]));
    assert_eq!(a.tables[1].top, row(&[Some("B")]));
    swap_seats(&mut a, &coord(1, "top", Some(0)), &coord(0, "bonus_right", None));
    assert_eq!(a.tables[0].bonus_right, name("B"));
    assert_eq!(a.tables[1].top, row(&[None]));
    swap_seats(&mut a, &coord(0, "bonus_left", None), &coord(0, "bonus_right", None));
    assert_eq!(a.tables[0].bonus_left, name("B"));
    assert_eq!(a.tables[0].bonus_right, None);
}

#[test]
fn swap_is_an_involution_and_keeps_occupants() {
    let a0 = SeatingArrangement {
        tables: vec![table(&[Some("A"), Some("B")], &[None, Some("C")]), table(&[Some("D")], &[Some("E")])],
    };
    let seats = [Seat::Top(0, 0), Seat::Bottom(0, 1), Seat::BonusLeft(1), Seat::Top(1, 0), Seat::Bottom(0, 0)];
    for &s1 in &seats {
        for &s2 in &seats {
            let mut a = a0.snapshot();
            swap_at(&mut a, s1, s2);
            assert_eq!(occupants(&a), occupants(&a0));
            swap_at(&mut a, s1, s2);
            assert!(same(&a, &a0));
        }
    }
    let mut a = a0.snapshot();
    swap_at(&mut a, Seat::Top(0, 0), Seat::Top(0, 0));
    assert!(same(&a, &a0));
}

#[test]
fn coordinates_parse() {
    assert_eq!(coord(2, "top", Some(1)).to_seat(), Some(Seat::Top(2, 1)));
    assert_eq!(coord(0, "bottom", Some(0)).to_seat(), Some(Seat::Bottom(0, 0)));
    assert_eq!(coord(3, "bonus_left", None).to_seat(), Some(Seat::BonusLeft(3)));
    assert_eq!(coord(3, "bonus_right", None).to_seat(), Some(Seat::BonusRight(3)));
    assert_eq!(coord(0, "middle", Some(0)).to_seat(), None);
    assert_eq!(coord(0, "top", None).to_seat(), None);
    assert_eq!(coord(0, "bonus_left", Some(0)).to_seat(), None);
}

#[test]
fn run_config_checks() {
    assert_eq!(parse_run_config(&"none".to_string(), 6), Ok(BonusConfig::NoBonus));
    assert_eq!(parse_run_config(&"left".to_string(), 1), Ok(BonusConfig::Left));
    assert_eq!(parse_run_config(&"right".to_string(), 1), Ok(BonusConfig::Right));
    assert_eq!(parse_run_config(&"both".to_string(), 4), Ok(BonusConfig::Both));
    assert_eq!(parse_run_config(&"all".to_string(), 4), Err(ErrorKind::InvalidConfig));
    assert_eq!(parse_run_config(&"both".to_string(), 0), Err(ErrorKind::InvalidConfig));
}

#[test]
fn free_seats_skip_fixed_and_follow_config() {
    let a = SeatingArrangement { tables: vec![table(&[None, None], &[None]), table(&[None], &[])] };
    let fixed = vec![coord(0, "top", Some(0)), coord(1, "bonus_left", None), coord(9, "top", Some(0))];
    let free = free_seats(&a, &fixed, BonusConfig::Both);
    assert_eq!(
        free,
        vec![Seat::Top(0, 1), Seat::Bottom(0, 0), Seat::BonusLeft(0), Seat::BonusRight(0), Seat::Top(1, 0), Seat::BonusRight(1)]
    );
    let plain = free_seats(&a, &vec![], BonusConfig::NoBonus);
    assert_eq!(plain, vec![Seat::Top(0, 0), Seat::Top(0, 1), Seat::Bottom(0, 0), Seat::Top(1, 0)]);
}

#[test]
fn perfection_predicate() {
    let idx = WishIndex::new(vec![student("A", &["B"]), student("B", &["A"]), student("C", &[])]);
    let good = SeatingArrangement { tables: vec![table(&[Some("A"), Some("B")], &[None, Some("C")])] };
    assert!(is_perfect_seating(&good, &idx));
    // diagonal neighbours do not count
    let diag = SeatingArrangement { tables: vec![table(&[Some("A"), None], &[None, Some("B")])] };
    assert!(!is_perfect_seating(&diag, &idx));
    // a bonus seat counts whatever the configuration
    let mut t = table(&[Some("C"), None], &[None, None]);
    t.bonus_left = name("A");
    let bonus = SeatingArrangement { tables: vec![t] };
    assert!(!is_perfect_seating(&bonus, &idx));
}

/// One annealing run followed by polishing, with the acceptance rule and
/// the floating-point scores kept here.
fn run(
    initial: SeatingArrangement,
    fixed: &Vec<Coordinate>,
    idx: &WishIndex,
    cfg: BonusConfig,
    weights: &[f64],
    bonus: f64,
    iterations: usize,
    early_stop: bool,
) -> (SeatingArrangement, f64) {
    let mut ann = Annealer::new(initial, fixed, cfg);
    let mut current = total(ann.current(), idx, cfg, weights, bonus);
    let mut best = current;
    let mut temp = 10.0f64;
    let mut state: u64 = 0x9E37_79B9_7F4A_7C15;
    for _ in 0..iterations {
        let Some((i, j)) = ann.draw() else { break };
        let (t1, t2) = (ann.free()[i].table(), ann.free()[j].table());
        let local = |a: &SeatingArrangement| {
            let mut s = score(&evaluate_table(&a.tables[t1], idx, cfg), weights, bonus);
            if t2 != t1 {
                s += score(&evaluate_table(&a.tables[t2], idx, cfg), weights, bonus);
            }
            s
        };
        let old = local(ann.current());
        ann.swap_free(i, j);
        let delta = local(ann.current()) - old;
        if delta >= 0.0 || next_unit(&mut state) < (delta / temp).exp().min(1.0) {
            current += delta;
            if current > best {
                ann.keep_best();
                best = current;
                if early_stop && is_perfect_seating(ann.best(), idx) {
                    break;
                }
            }
        } else {
            ann.swap_free(i, j);
        }
        temp = (temp * 0.99).max(1e-8);
    }
    let (arr, free) = ann.into_best();
    let mut pol = Polisher::new(arr, free.clone());
    while let Some((i, j)) = pol.pair() {
        let (t1, t2) = (free[i].table(), free[j].table());
        let local = |a: &SeatingArrangement| {
            let mut s = score(&evaluate_table(&a.tables[t1], idx, cfg), weights, bonus);
            if t2 != t1 {
                s += score(&evaluate_table(&a.tables[t2], idx, cfg), weights, bonus);
            }
            s
        };
        let old = local(pol.arrangement());
        pol.trial();
        let new = local(pol.arrangement());
        pol.settle(new > old);
    }
    let out = pol.into_arrangement();
    let s = total(&out, idx, cfg, weights, bonus);
    (out, s)
}

/// A fixed pseudo-random stream in [0, 1), so that runs are repeatable.
fn next_unit(state: &mut u64) -> f64 {
    *state = state.wrapping_mul(6364136223846793005).wrapping_add(1442695040888963407);
    (*state >> 11) as f64 / (1u64 << 53) as f64
}

#[test]
fn trivial_pair_reaches_perfection() {
    let idx = WishIndex::new(vec![student("A", &["B"]), student("B", &["A"])]);
    let initial = SeatingArrangement { tables: vec![table(&[Some("A"), None], &[None, Some("B")])] };
    let bonus = 3.0;
    let (best, s) = run(initial, &vec![], &idx, BonusConfig::NoBonus, &[1.0, 1.0], bonus, 1000, true);
    assert!((s - 2.0 * bonus).abs() < 1e-9);
    assert!(is_perfect_seating(&best, &idx));
}

#[test]
fn fixed_coordinate_keeps_its_occupant() {
    let idx = WishIndex::new(vec![
        student("A", &["B", "C"]),
        student("B", &["A"]),
        student("C", &["D"]),
        student("D", &["A"]),
    ]);
    let initial = SeatingArrangement {
        tables: vec![
            table(&[Some("A"), None, Some("C")], &[None, Some("D"), None]),
            table(&[None, Some("B"), None], &[None, None, None]),
        ],
    };
    let fixed = vec![coord(0, "top", Some(0))];
    let before = occupants(&initial);
    let (best, _) = run(initial, &fixed, &idx, BonusConfig::NoBonus, &[1.0, 1.0, 1.0, 1.0], 2.0, 10_000, false);
    assert_eq!(best.tables[0].top[0], name("A"));
    assert_eq!(occupants(&best), before);
}

#[test]
fn polisher_finishes_without_improving_pairs() {
    let idx = WishIndex::new(vec![student("A", &["B"]), student("B", &["A"]), student("C", &["A"])]);
    let initial = SeatingArrangement { tables: vec![table(&[Some("A"), None, Some("C")], &[None, Some("B"), None])] };
    let cfg = BonusConfig::NoBonus;
    let weights = [1.0, 1.0, 1.0];
    let (best, s) = run(initial, &vec![], &idx, cfg, &weights, 2.0, 0, false);
    let free = free_seats(&best, &vec![], cfg);
    for i in 0..free.len() {
        for j in i + 1..free.len() {
            let mut a = best.snapshot();
            swap_at(&mut a, free[i], free[j]);
            assert!(total(&a, &idx, cfg, &weights, 2.0) <= s + 1e-9);
        }
    }
}

#[test]
fn locality_of_table_scores() {
    let idx = WishIndex::new(vec![student("A", &["B"]), student("B", &["A"]), student("C", &[])]);
    let cfg = BonusConfig::Both;
    let w = [1.0, 2.0, 1.0];
    let a = SeatingArrangement {
        tables: vec![table(&[Some("A"), None], &[None, None]), table(&[Some("B"), Some("C")], &[None, None])],
    };
    let mut b = a.snapshot();
    swap_at(&mut b, Seat::Top(0, 1), Seat::Top(1, 0));
    let before = evaluate_seating(&a, &idx, cfg);
    let after = evaluate_seating(&b, &idx, cfg);
    let delta_tables: f64 = (0..2).map(|t| score(&after[t], &w, 1.5) - score(&before[t], &w, 1.5)).sum();
    let delta_total = total(&b, &idx, cfg, &w, 1.5) - total(&a, &idx, cfg, &w, 1.5);
    assert!((delta_tables - delta_total).abs() < 1e-9);
    assert!(delta_total > 0.0);
}

#[test]
fn draws_are_distinct_free_positions() {
    let a = SeatingArrangement { tables: vec![table(&[Some("A"), None, Some("B")], &[None, Some("C")])] };
    let ann = Annealer::new(a.snapshot(), &vec![coord(0, "bottom", Some(0))], BonusConfig::NoBonus);
    assert_eq!(ann.free().len(), 4);
    let mut seen = [false; 4];
    for _ in 0..500 {
        let (i, j) = ann.draw().unwrap();
        assert!(i < 4 && j < 4 && i != j);
        seen[i] = true;
        seen[j] = true;
    }
    assert!(seen.iter().all(|s| *s));
    let lone = Annealer::new(
        SeatingArrangement { tables: vec![table(&[Some("A")], &[])] },
        &vec![],
        BonusConfig::NoBonus,
    );
    assert_eq!(lone.draw(), None);
}

#[test]
fn annealer_swaps_and_reverts_in_place() {
    let a = SeatingArrangement { tables: vec![table(&[Some("A"), None], &[Some("B"), None]), table(&[Some("C")], &[None])] };
    let mut ann = Annealer::new(a.snapshot(), &vec![], BonusConfig::Left);
    let n = ann.free().len();
    for i in 0..n {
        for j in 0..n {
            ann.swap_free(i, j);
            assert_eq!(occupants(ann.current()), occupants(&a));
            ann.swap_free(i, j);
            assert!(same(ann.current(), &a));
        }
    }
    ann.swap_free(0, 1);
    assert!(same(ann.best(), &a));
    ann.keep_best();
    assert_eq!(ann.best().tables[0].top, row(&[None, Some("A")]));
}

#[test]
fn fixed_coordinates_must_name_seats() {
    let a = SeatingArrangement { tables: vec![table(&[None, None], &[None])] };
    assert_eq!(check_coordinates(&a, &vec![coord(0, "top", Some(1)), coord(0, "bonus_right", None)]), Ok(()));
    assert_eq!(check_coordinates(&a, &vec![coord(0, "bottom", Some(1))]), Err(ErrorKind::BadSeat));
    assert_eq!(check_coordinates(&a, &vec![coord(1, "top", Some(0))]), Err(ErrorKind::BadSeat));
    assert_eq!(check_coordinates(&a, &vec![coord(0, "aisle", None)]), Err(ErrorKind::BadSeat));
}

#[test]
fn polisher_walks_every_pair_then_finishes() {
    let a = SeatingArrangement { tables: vec![table(&[Some("A"), None, Some("B")], &[])] };
    let free = free_seats(&a, &vec![], BonusConfig::NoBonus);
    let mut pol = Polisher::new(a.snapshot(), free);
    let mut seen = Vec::new();
    while let Some(p) = pol.pair() {
        seen.push(p);
        pol.trial();
        // keep only the first trial, so a second pass follows
        pol.settle(seen.len() == 1);
    }
    assert_eq!(seen, vec![(0, 1), (0, 2), (1, 2), (0, 1), (0, 2), (1, 2)]);
    assert!(pol.finished());
    assert_eq!(pol.arrangement().tables[0].top, row(&[None, Some("A"), Some("B")]));
}
