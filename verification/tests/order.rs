use cmos_rtc::Time;
use std::cmp::Ordering;

fn at(century: u8, year: u16, month: u8, day: u8, hour: u8, minute: u8, second: u8) -> Time {
    Time { century, year, month, day, hour, minute, second }
}

fn samples() -> Vec<Time> {
    vec![
        at(0, 0, 0, 0, 0, 0, 0),
        at(0, 0, 0, 0, 0, 0, 1),
        at(0, 0, 0, 0, 0, 1, 0),
        at(0, 0, 0, 0, 1, 0, 0),
        at(0, 0, 0, 1, 0, 0, 0),
        at(0, 0, 1, 0, 0, 0, 0),
        at(0, 1, 0, 0, 0, 0, 0),
        at(1, 0, 0, 0, 0, 0, 0),
        at(19, 1999, 12, 31, 23, 59, 59),
        at(20, 2000, 1, 1, 0, 0, 0),
        at(20, 2024, 2, 29, 12, 30, 15),
        at(20, 2024, 2, 29, 12, 30, 16),
        at(255, 65_535, 255, 255, 255, 255, 255),
    ]
}

#[test]
fn exactly_one_of_less_equal_greater_holds() {
    let all = samples();
    for a in &all {
        for b in &all {
            let holds = [a < b, a == b, a > b];
            assert_eq!(holds.iter().filter(|h| **h).count(), 1);
        }
    }
}

#[test]
fn samples_are_in_ascending_order() {
    let all = samples();
    for i in 0..all.len() {
        for j in 0..all.len() {
            assert_eq!(Time::cmp(&all[i], &all[j]), i.cmp(&j));
        }
    }
}

#[test]
fn the_most_significant_difference_decides() {
    let early = at(19, 65_535, 255, 255, 255, 255, 255);
    let late = at(20, 0, 0, 0, 0, 0, 0);
    assert_eq!(Time::cmp(&early, &late), Ordering::Less);
    assert_eq!(Time::cmp(&late, &early), Ordering::Greater);
    let a = at(20, 2024, 1, 31, 23, 59, 59);
    let b = at(20, 2024, 2, 1, 0, 0, 0);
    assert!(a < b);
    assert!(b > a);
    assert!(a <= b);
    assert!(a != b);
}

#[test]
fn seconds_decide_last() {
    let a = at(20, 2024, 6, 15, 10, 20, 30);
    let b = at(20, 2024, 6, 15, 10, 20, 31);
    assert_eq!(Time::cmp(&a, &b), Ordering::Less);
    assert_eq!(Time::cmp(&b, &a), Ordering::Greater);
    assert_eq!(Time::cmp(&a, &a), Ordering::Equal);
}

#[test]
fn partial_cmp_always_decides() {
    let all = samples();
    for a in &all {
        for b in &all {
            assert_eq!(a.partial_cmp(b), Some(Time::cmp(a, b)));
        }
    }
}

#[test]
fn the_total_order_of_the_trait_is_the_same() {
    let all = samples();
    for a in &all {
        for b in &all {
            assert_eq!(Ord::cmp(a, b), Time::cmp(a, b));
        }
    }
}

#[test]
fn swapping_reverses_the_verdict() {
    let all = samples();
    for a in &all {
        for b in &all {
            assert_eq!(Time::cmp(a, b), Time::cmp(b, a).reverse());
        }
    }
}

#[test]
fn the_order_is_transitive() {
    let all = samples();
    for a in &all {
        for b in &all {
            for c in &all {
                if a < b && b < c {
                    assert!(a < c);
                }
            }
        }
    }
}

#[test]
fn sorting_puts_times_in_chronological_order() {
    let mut shuffled = samples();
    shuffled.reverse();
    shuffled.swap(2, 9);
    shuffled.sort();
    assert_eq!(shuffled, samples());
}

#[test]
fn default_is_all_zero() {
    assert_eq!(Time::default(), at(0, 0, 0, 0, 0, 0, 0));
}
