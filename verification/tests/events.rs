use debug_overlay::events::{Counters, Table};
use debug_overlay::filters::{All, Contains, EndsWith, GreaterThan, LessThan, Select, StartsWith};

#[test]
fn it_works() {
    let mut counters = Counters::new();

    counters.event("foo::bar");
    counters.event("foo::bar");

    counters.event("foo::baz");

    counters.event("meh");
    counters.event("fooo");

    assert_eq!(counters.get("foo::bar"), 2);
    assert_eq!(counters.get("foo::baz"), 1);
    assert_eq!(counters.accumulate("foo::"), 3);

    counters.reset_events(EndsWith("bar"));

    assert_eq!(counters.get("foo::bar"), 0);
    assert_eq!(counters.get("foo::baz"), 1);
    assert_eq!(counters.accumulate("foo::"), 1);

    counters.retain(Select(|key: &str, _: u64| key == "meh"));

    counters.reset_all();

    assert_eq!(counters.get("foo::bar"), 0);
    assert_eq!(counters.get("foo::baz"), 0);
    assert_eq!(counters.accumulate("foo::"), 0);
}

#[test]
fn noop() {
    let counters = debug_overlay::noop::Counters::new();

    counters.event("foo::bar");
    counters.event("foo::bar");

    counters.event("foo::baz");

    counters.event("meh");
    counters.event("fooo");

    assert_eq!(counters.get("foo::bar"), 0);
    assert_eq!(counters.get("foo::baz"), 0);
    assert_eq!(counters.accumulate("foo::"), 0);

    counters.reset_events(EndsWith("bar"));

    assert_eq!(counters.get("foo::bar"), 0);
    assert_eq!(counters.get("foo::baz"), 0);
    assert_eq!(counters.accumulate("foo::"), 0);

    counters.reset_all();

    assert_eq!(counters.get("foo::bar"), 0);
    assert_eq!(counters.get("foo::baz"), 0);
    assert_eq!(counters.accumulate("foo::"), 0);
}

#[test]
fn a_table_that_holds_nothing() {
    let counters = debug_overlay::noop::Counters::new();
    counters.event("foo");
    counters.reset_event("foo");
    counters.retain(All);
    assert_eq!(counters.listing(All), "");
    let table = debug_overlay::noop::Table::new(&["foo"]);
    assert_eq!(table.add_row(&counters), 0);
    assert_eq!(table.add_row(&counters), 0);
    assert_eq!(table.csv(), "");
}

fn entries(counters: &Counters) -> Vec<(String, u64)> {
    counters.entries()
}

fn pairs(list: &[(&str, u64)]) -> Vec<(String, u64)> {
    list.iter().map(|(k, v)| (k.to_string(), *v)).collect()
}

#[test]
fn events_are_counted_by_key() {
    let mut counters = Counters::new();
    assert_eq!(counters.get("a"), 0);
    counters.event("a");
    counters.event("b");
    counters.event("a");
    counters.event("");
    assert_eq!(entries(&counters), pairs(&[("a", 2), ("b", 1), ("", 1)]));
    counters.set("b", 7);
    counters.set("c", 9);
    assert_eq!(entries(&counters), pairs(&[("a", 2), ("b", 7), ("", 1), ("c", 9)]));
    counters.reset_event("a");
    counters.reset_event("d");
    assert_eq!(
        entries(&counters),
        pairs(&[("a", 0), ("b", 7), ("", 1), ("c", 9), ("d", 0)])
    );
    assert_eq!(counters.get("a"), 0);
    assert_eq!(counters.get("b"), 7);
    assert_eq!(counters.get("e"), 0);
    counters.set("max", u64::MAX - 1);
    counters.event("max");
    assert_eq!(counters.get("max"), u64::MAX);
}

#[test]
fn filters_keep_or_reset_counters() {
    let mut counters = Counters::new();
    for (key, value) in [("foo::bar", 2), ("foo::baz", 1), ("meh", 5), ("fooo", 9)] {
        counters.set(key, value);
    }
    counters.retain(All);
    assert_eq!(counters.entries().len(), 4);
    counters.retain(StartsWith("foo"));
    assert_eq!(entries(&counters), pairs(&[("foo::bar", 2), ("foo::baz", 1), ("fooo", 9)]));
    counters.reset_events(GreaterThan(8));
    assert_eq!(entries(&counters), pairs(&[("foo::bar", 2), ("foo::baz", 1)]));
    counters.reset_events(LessThan(2));
    assert_eq!(entries(&counters), pairs(&[("foo::bar", 2)]));
    counters.retain(Contains("nothing"));
    assert_eq!(entries(&counters), pairs(&[]));
}

#[test]
fn counters_are_added_up() {
    let mut counters = Counters::new();
    for (key, value) in [("foo::bar", 2), ("foo::baz", 1), ("meh", 5), ("fooo", 9)] {
        counters.set(key, value);
    }
    assert_eq!(counters.accumulate(All), 17);
    assert_eq!(counters.accumulate("foo"), 12);
    assert_eq!(counters.accumulate(Contains("::")), 3);
    assert_eq!(counters.accumulate(EndsWith("x")), 0);
    assert_eq!(counters.try_accumulate(All), Some(17));
    counters.set("huge", u64::MAX - 16);
    assert_eq!(counters.try_accumulate(All), None);
    assert_eq!(counters.try_accumulate(LessThan(10)), Some(17));
    assert_eq!(counters.try_accumulate(GreaterThan(1)), Some(u64::MAX));
    assert_eq!(counters.accumulate(GreaterThan(1)), u64::MAX);
}

#[test]
fn counters_are_listed_one_to_a_line() {
    let mut counters = Counters::new();
    assert_eq!(counters.listing(All), "");
    counters.set("slow path", 93);
    counters.set("fast path A", 6);
    counters.set("fast path B", 1);
    counters.set("do_the_thing", 100);
    assert_eq!(
        counters.listing(All),
        "slow path: 93\nfast path A: 6\nfast path B: 1\ndo_the_thing: 100\n"
    );
    assert_eq!(
        counters.listing(Contains("fast path")),
        "fast path A: 6\nfast path B: 1\n"
    );
}

#[test]
fn counters_are_moved_into_others() {
    let mut counters = Counters::new();
    counters.set("a", 1);
    counters.set("b", 2);
    let mut other = Counters::new();
    other.set("b", 40);
    other.set("c", 50);
    assert!(counters.can_append(&other));
    counters.append(&mut other);
    assert_eq!(entries(&counters), pairs(&[("a", 1), ("b", 42), ("c", 50)]));
    assert_eq!(entries(&other), pairs(&[]));
    other.set("b", u64::MAX - 41);
    assert!(!counters.can_append(&other));
    other.set("b", u64::MAX - 42);
    assert!(counters.can_append(&other));
    counters.append(&mut other);
    assert_eq!(counters.get("b"), u64::MAX);
}

#[test]
fn a_table_keeps_the_counters_of_its_labels() {
    let mut counters = Counters::new();
    let mut table = Table::new(&["foo", "bar", "meh"]);
    assert_eq!(table.csv(), "foo,bar,meh\n");

    for _ in 0..5 {
        counters.event("bar");
    }
    counters.event("foo");

    // "baz" isn't in the table labels, it will be ignored.
    counters.event("baz");

    assert_eq!(table.add_row(&counters), 1);

    // Start a second row...
    counters.reset_all();

    counters.event("foo");

    assert_eq!(table.add_row(&counters), 2);

    assert_eq!(table.csv(), "foo,bar,meh\n1, 5, 0\n1, 0, 0\n");
    assert_eq!(table.labels(), &vec!["foo".to_string(), "bar".to_string(), "meh".to_string()]);
    assert_eq!(table.rows().len(), 2);
    assert_eq!(entries(&table.rows()[0]), pairs(&[("bar", 5), ("foo", 1)]));
    assert_eq!(entries(&table.rows()[1]), pairs(&[("foo", 1)]));

    let empty = Table::new(&[]);
    assert_eq!(empty.csv(), "\n");
}
