use dotsage::record::Category;
use dotsage::store::DotsageQuestions;

fn author(b: u8) -> [u8; 32] {
    [b; 32]
}

#[test]
fn monotonic_ids() {
    let mut s = DotsageQuestions::new();
    let a = author(1);
    let id0 = s.ask_question("first".to_string(), Category::Docs, 10, a);
    let id1 = s.ask_question("second".to_string(), Category::Builders, 20, a);
    let id2 = s.ask_question("third".to_string(), Category::Governance, 30, a);
    assert_eq!(id0, 0);
    assert_eq!(id1, 1);
    assert_eq!(id2, 2);
    assert_eq!(s.question_count(), 3);
}

#[test]
fn truncation_long_text() {
    let mut s = DotsageQuestions::new();
    let long: String = "x".repeat(300);
    let id = s.ask_question(long.clone(), Category::Docs, 0, author(2));
    let got = s.get_question(id).unwrap();
    assert_eq!(got.2.chars().count(), 256);
    assert_eq!(got.2, long[..256].to_string());
}

#[test]
fn truncation_multibyte_safe() {
    let mut s = DotsageQuestions::new();
    // 300 two-byte characters: a raw byte cut would split one of them.
    let long: String = "\u{e9}".repeat(300);
    let id = s.ask_question(long, Category::Ecosystem, 0, author(3));
    let got = s.get_question(id).unwrap();
    assert_eq!(got.2.chars().count(), 256);
    assert_eq!(got.2, "\u{e9}".repeat(256));
}

#[test]
fn short_text_kept_whole() {
    let mut s = DotsageQuestions::new();
    let id = s.ask_question("how do I start?".to_string(), Category::Docs, 7, author(4));
    let got = s.get_question(id).unwrap();
    assert_eq!(got.2, "how do I start?");
}

#[test]
fn vote_on_missing_id() {
    let mut s = DotsageQuestions::new();
    assert!(!s.vote(9999, true));
    assert_eq!(s.question_count(), 0);
    assert!(s.get_question(9999).is_none());
}

#[test]
fn vote_counts() {
    let mut s = DotsageQuestions::new();
    let id = s.ask_question("q".to_string(), Category::Builders, 1, author(5));
    assert!(s.vote(id, true));
    assert!(s.vote(id, true));
    assert!(s.vote(id, false));
    let got = s.get_question(id).unwrap();
    assert_eq!(got.5, 2);
    assert_eq!(got.6, 1);
}

#[test]
fn votes_leave_identity_untouched() {
    let mut s = DotsageQuestions::new();
    let a = author(6);
    let id = s.ask_question("stable?".to_string(), Category::Governance, 1234, a);
    for i in 0..50 {
        assert!(s.vote(id, i % 3 != 0));
    }
    let got = s.get_question(id).unwrap();
    assert_eq!(got.0, id);
    assert_eq!(got.1, a);
    assert_eq!(got.2, "stable?");
    assert_eq!(got.3, 2);
    assert_eq!(got.4, 1234);
}

#[test]
fn pagination_boundaries() {
    let mut s = DotsageQuestions::new();
    for i in 0..5 {
        s.ask_question(format!("q{}", i), Category::Docs, i, author(7));
    }
    let ids = |v: Vec<(u32, [u8; 32], String, u32, u64, u32, u32)>| {
        v.into_iter().map(|t| t.0).collect::<Vec<u32>>()
    };
    assert_eq!(ids(s.get_questions(3, 10)), vec![3, 4]);
    assert_eq!(ids(s.get_questions(5, 10)), Vec::<u32>::new());
    assert_eq!(ids(s.get_questions(0, 0)), Vec::<u32>::new());
    assert_eq!(ids(s.get_questions(2, 2)), vec![2, 3]);
    assert_eq!(ids(s.get_questions(0, 5)), vec![0, 1, 2, 3, 4]);
}

#[test]
fn pagination_saturating_range() {
    let mut s = DotsageQuestions::new();
    for i in 0..3 {
        s.ask_question(format!("q{}", i), Category::Docs, i, author(8));
    }
    // offset + limit overflows u32; the scan must clamp, not wrap to zero.
    let got = s.get_questions(1, u32::MAX);
    assert_eq!(got.len(), 2);
    assert_eq!(got[0].0, 1);
    assert_eq!(got[1].0, 2);
}

#[test]
fn pagination_returns_order_and_fields() {
    let mut s = DotsageQuestions::new();
    let a = author(9);
    s.ask_question("alpha".to_string(), Category::Docs, 100, a);
    s.ask_question("beta".to_string(), Category::Ecosystem, 200, a);
    let got = s.get_questions(0, 2);
    assert_eq!(got.len(), 2);
    assert_eq!(got[0].2, "alpha");
    assert_eq!(got[0].3, 0);
    assert_eq!(got[0].4, 100);
    assert_eq!(got[1].2, "beta");
    assert_eq!(got[1].3, 3);
    assert_eq!(got[1].4, 200);
}

#[test]
fn category_indices() {
    let mut s = DotsageQuestions::new();
    let cats = [
        Category::Docs,
        Category::Builders,
        Category::Governance,
        Category::Ecosystem,
    ];
    for (i, c) in cats.iter().enumerate() {
        let id = s.ask_question(format!("c{}", i), *c, 0, author(10));
        let got = s.get_question(id).unwrap();
        assert_eq!(got.3, i as u32);
    }
}

#[test]
fn get_question_fields() {
    let mut s = DotsageQuestions::new();
    let a = author(11);
    let id = s.ask_question("full check".to_string(), Category::Builders, 5555, a);
    let got = s.get_question(id).unwrap();
    assert_eq!(got, (id, a, "full check".to_string(), 1, 5555, 0, 0));
}
