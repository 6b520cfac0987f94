use variant_set::{VariantEnum, VariantSet};

#[derive(Debug, Clone, PartialEq)]
enum Shape {
    Empty,
    Label(String),
    Count(u32),
    Point { x: i32, y: i32 },
}

#[derive(Debug, Clone, Copy, PartialEq, Eq, Hash)]
enum ShapeTag {
    Empty,
    Label,
    Count,
    Point,
}

impl VariantEnum for Shape {
    type Variant = ShapeTag;

    // `tag`, `ordinal` and `ordinal_is_injective` are of use to the verifier
    // alone: nothing calls them at run time.
    fn tag(&self) -> ShapeTag {
        self.variant()
    }

    fn ordinal(tag: ShapeTag) -> usize {
        Self::index(tag)
    }

    fn ordinal_is_injective(_a: ShapeTag, _b: ShapeTag) {}

    fn variant(&self) -> ShapeTag {
        match self {
            Shape::Empty => ShapeTag::Empty,
            Shape::Label(..) => ShapeTag::Label,
            Shape::Count(..) => ShapeTag::Count,
            Shape::Point { .. } => ShapeTag::Point,
        }
    }

    fn index(tag: ShapeTag) -> usize {
        match tag {
            ShapeTag::Empty => 0,
            ShapeTag::Label => 1,
            ShapeTag::Count => 2,
            ShapeTag::Point => 3,
        }
    }
}

fn label(text: &str) -> Shape {
    Shape::Label(text.to_string())
}

#[test]
fn new_set_is_empty() {
    let set: VariantSet<Shape> = VariantSet::new();
    assert!(set.is_empty());
    assert_eq!(set.len(), 0);
    assert!(!set.contains(ShapeTag::Label));
    assert_eq!(set.get(ShapeTag::Label), None);
    assert!(set.iter().is_empty());
}

#[test]
fn default_set_is_empty() {
    let set: VariantSet<Shape> = Default::default();
    assert!(set.is_empty());
    assert_eq!(set.len(), 0);
}

#[test]
fn with_capacity_gives_an_empty_set_with_room() {
    let set: VariantSet<Shape> = VariantSet::with_capacity(10);
    assert!(set.is_empty());
    assert_eq!(set.len(), 0);
    assert!(set.capacity() >= 10);
}

#[test]
fn capacity_is_no_less_than_the_length() {
    let mut set = VariantSet::new();
    assert!(set.capacity() >= set.len());
    set.set(Shape::Empty);
    set.set(Shape::Count(1));
    set.set(Shape::Label(String::new()));
    set.set(Shape::Point { x: 0, y: 0 });
    assert_eq!(set.len(), 4);
    assert!(set.capacity() >= 4);
    set.shrink_to_fit();
    assert!(set.capacity() >= 4);
}

#[test]
fn with_capacity_of_zero_works() {
    let mut set: VariantSet<Shape> = VariantSet::with_capacity(0);
    assert!(set.is_empty());
    assert!(set.insert(Shape::Count(3)));
    assert_eq!(set.len(), 1);
}

#[test]
fn capacity_may_exceed_the_number_of_variants() {
    let mut set: VariantSet<Shape> = VariantSet::with_capacity(1000);
    assert!(set.capacity() >= 1000);
    assert!(set.insert(Shape::Empty));
    assert_eq!(set.len(), 1);
}

#[test]
fn insert_stores_a_new_tag_and_keeps_an_old_value() {
    let mut set = VariantSet::new();
    assert!(set.insert(label("Hello")));
    assert!(!set.insert(label("World")));
    assert_eq!(set.get(ShapeTag::Label), Some(&label("Hello")));
    assert_eq!(set.len(), 1);
}

#[test]
fn set_returns_the_value_it_replaced() {
    let mut set = VariantSet::new();
    let previous = set.set(label("Hello"));
    assert_eq!(previous, None);
    let previous = set.set(label("World"));
    assert_eq!(previous, Some(label("Hello")));
    assert_eq!(set.get(ShapeTag::Label), Some(&label("World")));
    assert_eq!(set.len(), 1);
}

#[test]
fn contains_tells_tags_apart() {
    let mut set = VariantSet::new();
    set.set(label("Hello"));
    set.set(Shape::Point { x: 1, y: -2 });
    assert!(set.contains(ShapeTag::Label));
    assert!(set.contains(ShapeTag::Point));
    assert!(!set.contains(ShapeTag::Count));
    assert!(!set.contains(ShapeTag::Empty));
}

#[test]
fn contains_exact_compares_the_payload() {
    let mut set = VariantSet::new();
    set.set(label("Hello"));
    assert!(set.contains_exact(&label("Hello")));
    assert!(!set.contains_exact(&label("World")));
    assert!(!set.contains_exact(&Shape::Count(1)));
}

#[test]
fn get_finds_each_value_under_its_tag() {
    let mut set = VariantSet::new();
    set.set(label("Hello"));
    set.set(Shape::Count(42));
    set.set(Shape::Empty);
    assert_eq!(set.get(ShapeTag::Label), Some(&label("Hello")));
    assert_eq!(set.get(ShapeTag::Count), Some(&Shape::Count(42)));
    assert_eq!(set.get(ShapeTag::Empty), Some(&Shape::Empty));
    assert_eq!(set.get(ShapeTag::Point), None);
}

#[test]
fn get_or_insert_stores_the_default_when_the_tag_is_free() {
    let mut set = VariantSet::new();
    let value = set.get_or_insert(label("Hello"));
    assert_eq!(value, &label("Hello"));
    assert_eq!(set.len(), 1);
    assert_eq!(set.get(ShapeTag::Label), Some(&label("Hello")));
}

#[test]
fn get_or_insert_keeps_the_value_that_is_present() {
    let mut set = VariantSet::new();
    set.set(label("Hello"));
    let value = set.get_or_insert(label("World"));
    assert_eq!(value, &label("Hello"));
    assert_eq!(set.len(), 1);
    assert_eq!(set.get(ShapeTag::Label), Some(&label("Hello")));
}

#[test]
fn len_counts_the_tags_present() {
    let mut set = VariantSet::new();
    assert_eq!(set.len(), 0);
    set.set(label("Hello"));
    assert_eq!(set.len(), 1);
    set.set(Shape::Count(42));
    assert_eq!(set.len(), 2);
    set.set(Shape::Count(43));
    assert_eq!(set.len(), 2);
    assert!(!set.is_empty());
}

#[test]
fn remove_takes_the_value_out() {
    let mut set = VariantSet::new();
    set.set(label("Hello"));
    set.set(Shape::Count(1));
    let value = set.remove(ShapeTag::Label);
    assert_eq!(value, Some(label("Hello")));
    assert_eq!(set.remove(ShapeTag::Label), None);
    assert!(!set.contains(ShapeTag::Label));
    assert!(set.contains(ShapeTag::Count));
    assert_eq!(set.len(), 1);
}

#[test]
fn take_is_remove() {
    let mut set = VariantSet::new();
    set.set(label("Hello"));
    let value = set.take(ShapeTag::Label);
    assert_eq!(value, Some(label("Hello")));
    assert_eq!(set.take(ShapeTag::Label), None);
    assert!(set.is_empty());
}

#[test]
fn remove_exact_needs_an_equal_payload() {
    let mut set = VariantSet::new();
    set.set(label("Hello"));
    let not_matching = set.remove_exact(&label("World"));
    assert_eq!(not_matching, None);
    assert_eq!(set.len(), 1);
    assert_eq!(set.get(ShapeTag::Label), Some(&label("Hello")));
    let absent = set.remove_exact(&Shape::Count(7));
    assert_eq!(absent, None);
    assert_eq!(set.len(), 1);
    let matching = set.remove_exact(&label("Hello"));
    assert_eq!(matching, Some(label("Hello")));
    assert!(set.is_empty());
}

#[test]
fn clear_removes_every_value() {
    let mut set = VariantSet::new();
    set.set(label("Hello"));
    set.set(Shape::Count(2));
    set.clear();
    assert!(set.is_empty());
    assert_eq!(set.len(), 0);
    assert_eq!(set.get(ShapeTag::Label), None);
    assert!(set.insert(label("again")));
}

#[test]
fn clear_keeps_the_room() {
    let mut set: VariantSet<Shape> = VariantSet::with_capacity(16);
    set.set(Shape::Empty);
    set.set(Shape::Count(1));
    set.remove(ShapeTag::Empty);
    let before = set.capacity();
    set.clear();
    assert!(set.capacity() >= before);
    assert!(set.capacity() >= 16);
    assert!(set.is_empty());
}

#[test]
fn drain_next_takes_out_one_value_and_leaves_the_rest() {
    let mut set = VariantSet::from([label("x"), Shape::Count(1)]);
    let first = set.drain_next();
    assert!(first.is_some());
    let first = first.unwrap();
    assert!(first == label("x") || first == Shape::Count(1));
    assert_eq!(set.len(), 1);
    assert!(!set.contains(first.variant()));
    let other = if first == label("x") { Shape::Count(1) } else { label("x") };
    assert_eq!(set.get(other.variant()), Some(&other));
}

#[test]
fn drain_next_to_the_end_hands_out_what_drain_does() {
    let values = [label("x"), Shape::Count(1), Shape::Empty, Shape::Point { x: 1, y: 2 }];
    let mut stepwise = VariantSet::from(values.clone());
    let mut taken = Vec::new();
    while let Some(value) = stepwise.drain_next() {
        assert!(!stepwise.contains(value.variant()));
        taken.push(value);
        assert_eq!(stepwise.len(), 4 - taken.len());
    }
    assert!(stepwise.is_empty());
    assert_eq!(stepwise.drain_next(), None);
    let mut at_once = VariantSet::from(values.clone());
    let drained = at_once.drain();
    assert_eq!(taken.len(), drained.len());
    for value in &values {
        assert_eq!(taken.iter().filter(|one| *one == value).count(), 1);
        assert_eq!(drained.iter().filter(|one| *one == value).count(), 1);
    }
}

#[test]
fn drain_next_of_an_empty_set_is_nothing() {
    let mut set: VariantSet<Shape> = VariantSet::new();
    assert_eq!(set.drain_next(), None);
    assert!(set.is_empty());
}

#[test]
fn drain_hands_out_every_value_once() {
    let mut set = VariantSet::new();
    set.set(label("Hello"));
    set.set(Shape::Count(42));
    let values = set.drain();
    assert_eq!(values.len(), 2);
    assert!(values.contains(&label("Hello")));
    assert!(values.contains(&Shape::Count(42)));
    assert!(set.is_empty());
    assert_eq!(set.len(), 0);
}

#[test]
fn drain_of_an_empty_set_is_empty() {
    let mut set: VariantSet<Shape> = VariantSet::new();
    assert!(set.drain().is_empty());
    set.set(Shape::Empty);
    assert_eq!(set.drain(), vec![Shape::Empty]);
    assert!(set.drain().is_empty());
    assert!(set.is_empty());
}

#[test]
fn iter_visits_every_value_once() {
    let mut set = VariantSet::new();
    set.set(label("Hello"));
    set.set(Shape::Count(42));
    set.set(Shape::Point { x: 0, y: 9 });
    let values = set.iter();
    assert_eq!(values.len(), 3);
    assert!(values.contains(&&label("Hello")));
    assert!(values.contains(&&Shape::Count(42)));
    assert!(values.contains(&&Shape::Point { x: 0, y: 9 }));
    let mut seen = 0;
    for value in set.iter() {
        assert_eq!(set.get(value.variant()), Some(value));
        seen += 1;
    }
    assert_eq!(seen, 3);
    assert_eq!(set.len(), 3);
}

#[test]
fn into_iter_hands_out_every_value_once() {
    let mut set = VariantSet::new();
    set.set(label("Hello"));
    set.set(Shape::Count(42));
    let values: Vec<Shape> = set.into_iter().collect();
    assert_eq!(values.len(), 2);
    assert!(values.contains(&label("Hello")));
    assert!(values.contains(&Shape::Count(42)));
}

#[test]
fn reserve_makes_room() {
    let mut set: VariantSet<Shape> = VariantSet::new();
    set.reserve(10);
    assert!(set.capacity() >= 10);
    assert!(set.is_empty());
}

#[test]
fn reserve_keeps_the_values() {
    let mut set = VariantSet::new();
    set.set(label("Hello"));
    set.reserve(32);
    assert!(set.capacity() >= 33);
    assert_eq!(set.len(), 1);
    assert_eq!(set.get(ShapeTag::Label), Some(&label("Hello")));
}

#[test]
fn reserve_beyond_all_room_keeps_the_set() {
    let mut set = VariantSet::new();
    set.set(label("Hello"));
    set.reserve(usize::MAX);
    assert_eq!(set.len(), 1);
    assert_eq!(set.get(ShapeTag::Label), Some(&label("Hello")));
    assert!(set.insert(Shape::Empty));
}

#[test]
fn reserve_loses_no_room() {
    let mut set: VariantSet<Shape> = VariantSet::with_capacity(50);
    set.set(Shape::Count(1));
    set.reserve(2);
    assert!(set.capacity() >= 50);
    assert_eq!(set.get(ShapeTag::Count), Some(&Shape::Count(1)));
}

#[test]
fn try_reserve_succeeds_where_the_room_is_there() {
    let mut set: VariantSet<Shape> = VariantSet::with_capacity(20);
    set.set(Shape::Count(1));
    let before = set.capacity();
    assert!(set.try_reserve(before - 1).is_ok());
    assert!(set.try_reserve(0).is_ok());
    assert!(set.capacity() >= before);
    let mut fresh: VariantSet<Shape> = VariantSet::new();
    assert!(fresh.try_reserve(0).is_ok());
}

#[test]
fn try_reserve_with_values_makes_room_beyond_them() {
    let mut set = VariantSet::new();
    set.set(Shape::Count(1));
    set.set(Shape::Empty);
    assert!(set.try_reserve(30).is_ok());
    assert!(set.capacity() >= 32);
    assert_eq!(set.len(), 2);
}

#[test]
fn shrink_to_keeps_room_up_to_the_limit() {
    let mut set: VariantSet<Shape> = VariantSet::with_capacity(8);
    set.set(Shape::Empty);
    let before = set.capacity();
    set.shrink_to(3);
    assert!(set.capacity() >= 3);
    set.shrink_to(before + 10);
    assert!(set.capacity() >= 3);
    set.shrink_to_fit();
    assert!(set.capacity() >= 1);
    assert_eq!(set.get(ShapeTag::Empty), Some(&Shape::Empty));
}

#[test]
fn try_reserve_makes_room() {
    let mut set: VariantSet<Shape> = VariantSet::new();
    assert!(set.try_reserve(10).is_ok());
    assert!(set.capacity() >= 10);
    set.set(Shape::Count(5));
    assert!(set.try_reserve(0).is_ok());
    assert_eq!(set.get(ShapeTag::Count), Some(&Shape::Count(5)));
}

#[test]
fn try_reserve_reports_an_overflow() {
    let mut set = VariantSet::new();
    set.set(Shape::Count(5));
    assert!(set.try_reserve(usize::MAX).is_err());
    assert_eq!(set.len(), 1);
    assert_eq!(set.get(ShapeTag::Count), Some(&Shape::Count(5)));
}

#[test]
fn try_reserve_that_fails_leaves_the_room_as_it_was() {
    let mut set: VariantSet<Shape> = VariantSet::with_capacity(12);
    set.set(Shape::Count(5));
    let before = set.capacity();
    assert!(set.try_reserve(usize::MAX).is_err());
    assert_eq!(set.capacity(), before);
    assert!(set.try_reserve(usize::MAX / 2).is_err());
    assert_eq!(set.capacity(), before);
}

#[test]
fn reserve_never_lowers_the_capacity() {
    let mut set: VariantSet<Shape> = VariantSet::with_capacity(40);
    set.set(Shape::Count(5));
    let before = set.capacity();
    set.reserve(1);
    assert!(set.capacity() >= before);
    set.reserve(100);
    assert!(set.capacity() >= before);
    assert!(set.capacity() >= 101);
}

#[test]
fn shrink_to_keeps_the_lower_limit() {
    let mut set: VariantSet<Shape> = VariantSet::new();
    set.reserve(100);
    set.set(Shape::Count(5));
    set.shrink_to(5);
    assert!(set.capacity() >= 5);
    assert_eq!(set.len(), 1);
    assert_eq!(set.get(ShapeTag::Count), Some(&Shape::Count(5)));
}

#[test]
fn shrink_to_above_the_capacity_loses_no_room() {
    let mut set: VariantSet<Shape> = VariantSet::with_capacity(4);
    let before = set.capacity();
    set.shrink_to(before + 100);
    assert!(set.capacity() >= before);
}

#[test]
fn shrink_to_fit_keeps_room_for_the_values() {
    let mut set: VariantSet<Shape> = VariantSet::new();
    set.reserve(100);
    set.set(label("Hello"));
    set.set(Shape::Empty);
    set.shrink_to_fit();
    assert!(set.capacity() >= 2);
    assert_eq!(set.len(), 2);
    assert_eq!(set.get(ShapeTag::Label), Some(&label("Hello")));
    assert_eq!(set.get(ShapeTag::Empty), Some(&Shape::Empty));
}

#[test]
fn clone_holds_the_same_values() {
    let mut set = VariantSet::new();
    set.set(label("Hello"));
    set.set(Shape::Count(42));
    let mut cloned = set.clone();
    assert_eq!(set, cloned);
    cloned.set(Shape::Count(43));
    assert_eq!(set.get(ShapeTag::Count), Some(&Shape::Count(42)));
    assert_eq!(cloned.get(ShapeTag::Count), Some(&Shape::Count(43)));
    assert_ne!(set, cloned);
}

#[test]
fn equality_ignores_the_order_of_insertion() {
    let mut first = VariantSet::new();
    first.set(label("Hello"));
    first.set(Shape::Count(42));
    let mut second = VariantSet::new();
    second.set(Shape::Count(42));
    second.set(label("Hello"));
    assert_eq!(first, second);
    assert!(first == second);
}

#[test]
fn equality_compares_tags_and_payloads() {
    let mut first = VariantSet::new();
    first.set(label("Hello"));
    let mut second = VariantSet::new();
    assert!(first != second);
    second.set(label("World"));
    assert!(first != second);
    second.set(label("Hello"));
    assert!(first == second);
    second.set(Shape::Empty);
    assert!(first != second);
    first.set(Shape::Count(0));
    assert!(first != second);
    let empty: VariantSet<Shape> = VariantSet::new();
    assert!(empty == VariantSet::new());
}

#[test]
fn extend_replaces_and_lets_the_last_value_win() {
    let mut set = VariantSet::new();
    set.set(Shape::Count(10));
    set.extend(vec![label("Hello"), Shape::Count(42), label("World")]);
    assert_eq!(set.len(), 2);
    assert!(set.contains_exact(&label("World")));
    assert!(set.contains_exact(&Shape::Count(42)));
}

#[test]
fn extend_with_nothing_changes_nothing() {
    let mut set = VariantSet::new();
    set.set(Shape::Count(10));
    set.extend(Vec::new());
    assert_eq!(set.len(), 1);
    assert!(set.contains_exact(&Shape::Count(10)));
}

#[test]
fn from_iter_lets_the_last_value_win() {
    let values = vec![label("Hello"), Shape::Count(42), label("World")];
    let set = VariantSet::from_iter(values);
    assert_eq!(set.len(), 2);
    assert!(set.contains_exact(&label("World")));
    assert!(set.contains_exact(&Shape::Count(42)));
}

#[test]
fn from_array_holds_the_values() {
    let array = [label("Hello"), Shape::Count(42)];
    let set = VariantSet::from(array);
    assert_eq!(set.len(), 2);
    assert_eq!(set.get(ShapeTag::Label), Some(&label("Hello")));
    assert_eq!(set.get(ShapeTag::Count), Some(&Shape::Count(42)));
}

#[test]
fn from_array_lets_the_last_value_win() {
    let set = VariantSet::from([label("p"), Shape::Count(5), label("q")]);
    assert_eq!(set.len(), 2);
    assert_eq!(set.get(ShapeTag::Label), Some(&label("q")));
    assert_eq!(set.get(ShapeTag::Count), Some(&Shape::Count(5)));
}

#[test]
fn from_an_empty_array_is_empty() {
    let array: [Shape; 0] = [];
    let set = VariantSet::from(array);
    assert!(set.is_empty());
}

#[test]
fn debug_formatting_works() {
    let mut set = VariantSet::new();
    set.set(Shape::Count(42));
    let text = format!("{:?}", set);
    assert!(!text.is_empty());
}

#[test]
fn insert_then_set_then_remove_exact() {
    let mut set = VariantSet::new();
    assert!(set.insert(label("x")));
    assert!(set.insert(Shape::Count(1)));
    assert!(!set.insert(label("y")));
    assert_eq!(set.get(ShapeTag::Label), Some(&label("x")));
    assert_eq!(set.set(label("y")), Some(label("x")));
    assert_eq!(set.get(ShapeTag::Label), Some(&label("y")));
    assert_eq!(set.len(), 2);
    assert_eq!(set.remove_exact(&Shape::Count(2)), None);
    assert_eq!(set.len(), 2);
    assert_eq!(set.remove_exact(&Shape::Count(1)), Some(Shape::Count(1)));
    assert_eq!(set.len(), 1);
}
