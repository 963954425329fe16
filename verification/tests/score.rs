use text_embeddings_router::collect::reversed;
use text_embeddings_router::score::{
    can_compare, is_not_a_number, key_of, keys_of, rank_descending, rank_scores,
};

fn bits(scores: &[f32]) -> Vec<u32> {
    scores.iter().map(|score| score.to_bits()).collect()
}

/// The positions of the scores after a stable ascending sort by value that
/// is then turned around.
fn sorted_then_reversed(scores: &[f32]) -> Vec<usize> {
    let mut order: Vec<usize> = (0..scores.len()).collect();
    order.sort_by(|x, y| scores[*x].partial_cmp(&scores[*y]).unwrap());
    order.reverse();
    order
}

#[test]
fn key_orders_as_the_score_does() {
    let scores = [
        f32::NEG_INFINITY,
        f32::MIN,
        -1.5,
        -1.0,
        -f32::MIN_POSITIVE,
        -0.0,
        0.0,
        f32::MIN_POSITIVE,
        0.25,
        0.5,
        1.0,
        f32::MAX,
        f32::INFINITY,
    ];
    for x in scores {
        for y in scores {
            let by_key = key_of(x.to_bits()).partial_cmp(&key_of(y.to_bits()));
            assert_eq!(by_key, x.partial_cmp(&y), "{} {}", x, y);
        }
    }
}

#[test]
fn key_of_known_patterns() {
    assert_eq!(key_of(0), 0);
    assert_eq!(key_of(0x8000_0000), 0);
    assert_eq!(key_of(0x3f80_0000), 0x3f80_0000);
    assert_eq!(key_of(0xbf80_0000), -0x3f80_0000);
    assert_eq!(key_of(u32::MAX), -0x7fff_ffff);
    assert_eq!(keys_of(&vec![0, 0x8000_0001, 7]), vec![0, -1, 7]);
}

#[test]
fn not_a_number_patterns() {
    assert!(is_not_a_number(f32::NAN.to_bits()));
    assert!(is_not_a_number((-f32::NAN).to_bits()));
    assert!(is_not_a_number(0x7f80_0001));
    assert!(is_not_a_number(0xffff_ffff));
    assert!(!is_not_a_number(f32::INFINITY.to_bits()));
    assert!(!is_not_a_number(f32::NEG_INFINITY.to_bits()));
    assert!(!is_not_a_number(0.0f32.to_bits()));
    assert!(!is_not_a_number((-0.0f32).to_bits()));
    assert!(!is_not_a_number(f32::MAX.to_bits()));
}

#[test]
fn scores_compare_unless_two_or_more_hold_a_nan() {
    assert!(can_compare(&bits(&[])));
    assert!(can_compare(&bits(&[f32::NAN])));
    assert!(can_compare(&bits(&[0.5, 0.25])));
    assert!(!can_compare(&bits(&[0.5, f32::NAN])));
    assert!(!can_compare(&bits(&[f32::NAN, 0.5, 0.1])));
}

#[test]
fn ranks_from_highest_to_lowest() {
    assert_eq!(rank_scores(&bits(&[0.1, 0.9, 0.5])), vec![1, 2, 0]);
    assert_eq!(rank_scores(&bits(&[-3.0, -1.0, -2.0])), vec![1, 2, 0]);
    assert_eq!(rank_scores(&bits(&[])), Vec::<usize>::new());
    assert_eq!(rank_scores(&bits(&[7.0])), vec![0]);
}

#[test]
fn of_equal_scores_the_later_comes_first() {
    assert_eq!(rank_scores(&bits(&[0.5, 0.5, 0.5])), vec![2, 1, 0]);
    assert_eq!(rank_scores(&bits(&[0.0, -0.0, 1.0, 0.0])), vec![2, 3, 1, 0]);
    assert_eq!(rank_descending(&vec![5, 7, 5, 7, 1]), vec![3, 1, 2, 0, 4]);
}

#[test]
fn ranks_as_a_sort_that_is_turned_around() {
    let lists: [&[f32]; 6] = [
        &[0.3, 0.1, 0.2, 0.9, 0.9, 0.0],
        &[1.0, 1.0],
        &[-0.0, 0.0],
        &[f32::INFINITY, f32::NEG_INFINITY, 0.0, f32::MAX, f32::MIN],
        &[0.25, -0.25, 0.25, -0.25, 0.25],
        &[9.0, 8.0, 7.0, 6.0, 5.0, 4.0, 3.0, 2.0, 1.0, 0.0, 1.0, 2.0, 3.0, 4.0, 5.0],
    ];
    for scores in lists {
        assert_eq!(rank_scores(&bits(scores)), sorted_then_reversed(scores), "{:?}", scores);
    }
}

#[test]
fn reversed_turns_a_list_around() {
    assert_eq!(reversed(vec![1, 2, 3]), vec![3, 2, 1]);
    assert_eq!(reversed(Vec::<u8>::new()), Vec::<u8>::new());
    assert_eq!(reversed(vec!["a".to_string()]), vec!["a".to_string()]);
}
