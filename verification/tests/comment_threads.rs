use hn_reader::comment_block::Comment;
use hn_reader::comment_block::CommentBlock;
use hn_reader::comment_block::MAX_DEPTH;
use hn_reader::comment_tree::TreeBuilder;
use hn_reader::record::Field;
use hn_reader::record::ItemRecord;

fn leaf(text: &str) -> Comment {
    Comment { text: text.to_string(), replies: None }
}

fn node(text: &str, replies: Vec<Comment>) -> Comment {
    Comment { text: text.to_string(), replies: Some(replies) }
}

fn chain(depth: usize) -> Comment {
    let mut c = leaf(&format!("level {}", depth));
    let mut d = depth;
    while d > 0 {
        d -= 1;
        c = node(&format!("level {}", d), vec![c]);
    }
    c
}

fn answer(text: &str, kids: &[i64]) -> Option<ItemRecord> {
    let mut rec = ItemRecord::empty();
    rec.kind = Field::Present("comment".to_string());
    rec.text = Field::Present(text.to_string());
    if !kids.is_empty() {
        rec.kids = Field::Present(kids.to_vec());
    }
    Some(rec)
}

#[test]
fn the_cap_is_ten_levels() {
    assert_eq!(MAX_DEPTH, 10);
}

#[test]
fn a_leaf_is_one_line() {
    assert_eq!(CommentBlock::helper(&leaf("hello"), 0), vec!["> hello\n".to_string()]);
    assert_eq!(CommentBlock::helper(&leaf("hello"), 1), vec!["--> hello\n".to_string()]);
    assert_eq!(CommentBlock::helper(&leaf("hello"), 3), vec!["------> hello\n".to_string()]);
    assert_eq!(CommentBlock::helper(&leaf(""), 0), vec!["> \n".to_string()]);
}

#[test]
fn flattening_is_depth_first_in_reply_order() {
    let a = node("A", vec![node("B", vec![leaf("D")]), leaf("C")]);
    assert_eq!(
        CommentBlock::helper(&a, 0),
        vec![
            "> A\n".to_string(),
            "--> B\n".to_string(),
            "----> D\n".to_string(),
            "--> C\n".to_string(),
        ]
    );
}

#[test]
fn flattening_visits_whole_subtrees_before_siblings() {
    let tree = node(
        "r",
        vec![
            node("a", vec![leaf("a1"), node("a2", vec![leaf("a2x")]), leaf("a3")]),
            leaf("b"),
            node("c", vec![leaf("c1")]),
        ],
    );
    let lines = CommentBlock::helper(&tree, 0);
    let expected: Vec<String> = vec![
        "> r\n",
        "--> a\n",
        "----> a1\n",
        "----> a2\n",
        "------> a2x\n",
        "----> a3\n",
        "--> b\n",
        "--> c\n",
        "----> c1\n",
    ]
    .into_iter()
    .map(String::from)
    .collect();
    assert_eq!(lines, expected);
}

#[test]
fn the_prefix_stops_growing_at_the_cap() {
    let lines = CommentBlock::helper(&chain(15), 0);
    assert_eq!(lines.len(), 16);
    for depth in 0..=15usize {
        let shown = if depth < 10 { depth } else { 10 };
        assert_eq!(lines[depth], format!("{}> level {}\n", "--".repeat(shown), depth));
    }
    assert_eq!(lines[15], "--------------------> level 15\n");
    assert_eq!(lines[10], "--------------------> level 10\n");
    assert_eq!(lines[9], "------------------> level 9\n");
}

#[test]
fn a_start_beyond_the_cap_renders_as_the_cap() {
    let tree = node("x", vec![leaf("y")]);
    let at_cap = CommentBlock::helper(&tree, 10);
    assert_eq!(at_cap, vec![format!("{}> x\n", "--".repeat(10)), format!("{}> y\n", "--".repeat(10))]);
    assert_eq!(CommentBlock::helper(&tree, 15), at_cap);
    assert_eq!(CommentBlock::helper(&tree, u16::MAX), at_cap);
    assert_eq!(CommentBlock::helper(&tree, u16::MAX - 1), at_cap);
}

#[test]
fn lines_are_stripped_of_markup() {
    let tree = node("<p>I <i>agree</i></p>", vec![leaf("a &lt; b<script>x</script>")]);
    assert_eq!(
        CommentBlock::helper(&tree, 0),
        vec!["> I agree\n".to_string(), "--> a &lt; b\n".to_string()]
    );
}

#[test]
fn a_block_flattens_every_top_level_thread() {
    let block = CommentBlock::new(vec![
        node("A", vec![node("B", vec![leaf("D")]), leaf("C")]),
        leaf("E"),
        node("F", vec![leaf("G")]),
    ]);
    let expected: Vec<String> =
        vec!["> A\n", "--> B\n", "----> D\n", "--> C\n", "> E\n", "> F\n", "--> G\n"]
            .into_iter()
            .map(String::from)
            .collect();
    assert_eq!(block.comment_strings, expected);
    assert_eq!(block.comments.len(), 3);
    assert_eq!(block.comments[1], leaf("E"));
    assert!(!block.focused);
    assert_eq!(block.scroll, 0);
}

#[test]
fn a_block_of_no_comments_has_no_lines() {
    let block = CommentBlock::new(Vec::new());
    assert!(block.comments.is_empty());
    assert!(block.comment_strings.is_empty());
}

#[test]
fn a_block_scrolls_down_without_bound_and_up_to_the_top() {
    let mut block = CommentBlock::new(vec![leaf("a")]);
    block.scroll_up();
    assert_eq!(block.scroll, 0);
    for expected in 1..=40u16 {
        block.scroll_down();
        assert_eq!(block.scroll, expected);
    }
    block.scroll_up();
    assert_eq!(block.scroll, 39);
    for _ in 0..100 {
        block.scroll_up();
    }
    assert_eq!(block.scroll, 0);
    assert_eq!(block.comment_strings, vec!["> a\n".to_string()]);
    assert_eq!(block.comments, vec![leaf("a")]);
}

#[test]
fn a_tree_is_built_level_by_level() {
    let mut builder = TreeBuilder::new(&vec![1]);
    assert_eq!(builder.pending(), vec![1]);
    assert_eq!(builder.finish(), None);
    assert!(builder.supply(vec![answer("A", &[2, 3])]));
    assert_eq!(builder.pending(), vec![2, 3]);
    assert_eq!(builder.finish(), None);
    assert!(builder.supply(vec![answer("B", &[4]), answer("C", &[])]));
    assert_eq!(builder.pending(), vec![4]);
    assert!(builder.supply(vec![answer("D", &[])]));
    assert_eq!(builder.pending(), Vec::<i64>::new());
    let forest = builder.finish().unwrap();
    assert_eq!(forest, vec![node("A", vec![node("B", vec![leaf("D")]), leaf("C")])]);
    let block = CommentBlock::new(forest);
    let expected: Vec<String> = vec!["> A\n", "--> B\n", "----> D\n", "--> C\n"]
        .into_iter()
        .map(String::from)
        .collect();
    assert_eq!(block.comment_strings, expected);
}

#[test]
fn answers_go_to_the_pending_ids_in_order() {
    let mut builder = TreeBuilder::new(&vec![10, 20, 30]);
    assert_eq!(builder.pending(), vec![10, 20, 30]);
    assert!(builder.supply(vec![
        answer("ten", &[11, 12]),
        answer("twenty", &[]),
        answer("thirty", &[31]),
    ]));
    assert_eq!(builder.pending(), vec![11, 12, 31]);
    assert!(builder.supply(vec![
        answer("eleven", &[]),
        answer("twelve", &[121]),
        answer("thirty-one", &[311, 312]),
    ]));
    assert_eq!(builder.pending(), vec![121, 311, 312]);
    assert!(builder.supply(vec![answer("x", &[]), answer("y", &[]), answer("z", &[])]));
    assert_eq!(
        builder.finish().unwrap(),
        vec![
            node("ten", vec![leaf("eleven"), node("twelve", vec![leaf("x")])]),
            leaf("twenty"),
            node("thirty", vec![node("thirty-one", vec![leaf("y"), leaf("z")])]),
        ]
    );
}

#[test]
fn a_failed_fetch_costs_its_own_comment_only() {
    let mut builder = TreeBuilder::new(&vec![1]);
    assert!(builder.supply(vec![answer("root", &[2, 3])]));
    assert!(builder.supply(vec![None, answer("alive", &[4, 5])]));
    assert_eq!(builder.pending(), vec![4, 5]);
    assert!(builder.supply(vec![answer("deep one", &[6]), answer("deep two", &[])]));
    assert!(builder.supply(vec![answer("deepest", &[])]));
    let forest = builder.finish().unwrap();
    assert_eq!(
        forest,
        vec![node(
            "root",
            vec![
                leaf(""),
                node("alive", vec![node("deep one", vec![leaf("deepest")]), leaf("deep two")]),
            ]
        )]
    );
    let expected: Vec<String> = vec![
        "> root\n",
        "--> \n",
        "--> alive\n",
        "----> deep one\n",
        "------> deepest\n",
        "----> deep two\n",
    ]
    .into_iter()
    .map(String::from)
    .collect();
    assert_eq!(CommentBlock::new(forest).comment_strings, expected);
}

#[test]
fn a_failed_top_level_fetch_leaves_the_others() {
    let mut builder = TreeBuilder::new(&vec![1, 2, 3]);
    assert!(builder.supply(vec![None, answer("two", &[]), None]));
    assert_eq!(builder.finish().unwrap(), vec![leaf(""), leaf("two"), leaf("")]);
}

#[test]
fn an_empty_record_is_an_empty_leaf() {
    let mut builder = TreeBuilder::new(&vec![1]);
    assert!(builder.supply(vec![Some(ItemRecord::empty())]));
    assert_eq!(builder.finish().unwrap(), vec![leaf("")]);
}

#[test]
fn a_malformed_record_is_an_empty_leaf() {
    let mut bad_text = ItemRecord::empty();
    bad_text.text = Field::Malformed;
    bad_text.kids = Field::Present(vec![7, 8]);
    let mut bad_kids = ItemRecord::empty();
    bad_kids.text = Field::Present("lost".to_string());
    bad_kids.kids = Field::Malformed;
    let mut builder = TreeBuilder::new(&vec![1, 2, 3]);
    assert!(builder.supply(vec![Some(bad_text), Some(bad_kids), answer("fine", &[9])]));
    assert_eq!(builder.pending(), vec![9]);
    assert!(builder.supply(vec![answer("nine", &[])]));
    assert_eq!(
        builder.finish().unwrap(),
        vec![leaf(""), leaf(""), node("fine", vec![leaf("nine")])]
    );
}

#[test]
fn an_empty_reply_list_is_no_reply_list() {
    let mut rec = ItemRecord::empty();
    rec.text = Field::Present("alone".to_string());
    rec.kids = Field::Present(Vec::new());
    let mut builder = TreeBuilder::new(&vec![1]);
    assert!(builder.supply(vec![Some(rec)]));
    assert_eq!(builder.pending(), Vec::<i64>::new());
    assert_eq!(builder.finish().unwrap(), vec![leaf("alone")]);
}

#[test]
fn a_comment_without_text_has_the_empty_text() {
    let mut rec = ItemRecord::empty();
    rec.kids = Field::Present(vec![5]);
    let mut builder = TreeBuilder::new(&vec![1]);
    assert!(builder.supply(vec![Some(rec)]));
    assert!(builder.supply(vec![answer("child", &[])]));
    assert_eq!(builder.finish().unwrap(), vec![node("", vec![leaf("child")])]);
}

#[test]
fn a_batch_of_another_length_is_refused() {
    let mut builder = TreeBuilder::new(&vec![1, 2]);
    assert!(!builder.supply(vec![answer("only one", &[])]));
    assert!(!builder.supply(Vec::new()));
    assert!(!builder.supply(vec![answer("a", &[]), answer("b", &[]), answer("c", &[])]));
    assert_eq!(builder.pending(), vec![1, 2]);
    assert_eq!(builder.finish(), None);
    assert!(builder.supply(vec![answer("a", &[]), answer("b", &[])]));
    assert_eq!(builder.finish().unwrap(), vec![leaf("a"), leaf("b")]);
    assert!(!builder.supply(vec![answer("late", &[])]));
    assert!(builder.supply(Vec::new()));
    assert_eq!(builder.finish().unwrap(), vec![leaf("a"), leaf("b")]);
}

#[test]
fn no_top_level_comment_is_a_finished_empty_discussion() {
    let builder = TreeBuilder::new(&Vec::new());
    assert_eq!(builder.pending(), Vec::<i64>::new());
    assert_eq!(builder.finish(), Some(Vec::new()));
}

#[test]
fn a_deep_chain_is_built_and_flattened_whole() {
    let mut builder = TreeBuilder::new(&vec![0]);
    for level in 0..15i64 {
        assert_eq!(builder.pending(), vec![level]);
        assert!(builder.supply(vec![answer(&format!("level {}", level), &[level + 1])]));
    }
    assert!(builder.supply(vec![answer("level 15", &[])]));
    let forest = builder.finish().unwrap();
    assert_eq!(forest, vec![chain(15)]);
    let lines = CommentBlock::new(forest).comment_strings;
    assert_eq!(lines.len(), 16);
    assert_eq!(lines[15], format!("{}> level 15\n", "--".repeat(10)));
    assert_eq!(lines[11], format!("{}> level 11\n", "--".repeat(10)));
    assert_eq!(lines[5], format!("{}> level 5\n", "--".repeat(5)));
}

#[test]
fn the_same_id_may_be_answered_differently_at_two_places() {
    let mut builder = TreeBuilder::new(&vec![7, 7]);
    assert_eq!(builder.pending(), vec![7, 7]);
    assert!(builder.supply(vec![answer("first", &[]), None]));
    assert_eq!(builder.finish().unwrap(), vec![leaf("first"), leaf("")]);
}
