//! Building a reply tree level by level: the builder names the comments it
//! still waits for, the caller fetches them, and the answers are grafted
//! into the tree, where they may name further comments to wait for.

use vstd::prelude::*;
use crate::comment_block::threads;
use crate::comment_block::well_formed;
use crate::comment_block::Comment;
use crate::comment_block::Thread;
use crate::record::Field;
use crate::record::ItemRecord;
use crate::record::RecordView;

verus! {

/// A node of a reply tree under construction.
#[derive(Debug, PartialEq, Eq)]
pub enum Branch {
    /// The comment with this id is asked for and not answered yet.
    Awaiting(i64),
    /// The comment is loaded; replies below it may still be awaited.
    Loaded { text: String, replies: Option<Vec<Branch>> },
}

/// Mathematical value of a `Branch`.
pub ghost enum BranchView {
    Awaiting(i64),
    Loaded { text: Seq<char>, replies: Option<Seq<BranchView>> },
}

impl View for Branch {
    type V = BranchView;

    open spec fn view(&self) -> BranchView
        decreases self,
    {
        match self {
            Branch::Awaiting(id) => BranchView::Awaiting(*id),
            Branch::Loaded { text, replies } => BranchView::Loaded {
                text: text@,
                replies: match replies {
                    None => None,
                    Some(v) => Some(branches(v@)),
                },
            },
        }
    }
}

/// The values of a sequence of branches.
pub open spec fn branches(bs: Seq<Branch>) -> Seq<BranchView>
    decreases bs,
{
    Seq::new(
        bs.len(),
        |i: int|
            if 0 <= i < bs.len() {
                bs[i]@
            } else {
                arbitrary()
            },
    )
}

/// What a fetch brought back for each comment asked for: the record, or
/// nothing where the fetch failed.
pub open spec fn answer_views(answers: Seq<Option<ItemRecord>>) -> Seq<Option<RecordView>> {
    Seq::new(
        answers.len(),
        |i: int|
            match answers[i] {
                Some(rec) => Some(rec@),
                None => None,
            },
    )
}

/// The ids a branch still waits for, left to right.
pub open spec fn awaited_in(b: BranchView) -> Seq<i64>
    decreases b,
{
    match b {
        BranchView::Awaiting(id) => seq![id],
        BranchView::Loaded { text, replies } => match replies {
            None => Seq::empty(),
            Some(below) => awaited(below),
        },
    }
}

/// The ids a forest still waits for, left to right.
pub open spec fn awaited(forest: Seq<BranchView>) -> Seq<i64>
    decreases forest,
{
    if forest.len() == 0 {
        Seq::empty()
    } else {
        awaited(forest.drop_last()) + awaited_in(forest.last())
    }
}

/// One awaited branch for each id.
pub open spec fn seedlings(ids: Seq<i64>) -> Seq<BranchView> {
    Seq::new(ids.len(), |i: int| BranchView::Awaiting(ids[i]))
}

/// The leaf that stands for a comment that could not be had.
pub open spec fn empty_leaf() -> BranchView {
    BranchView::Loaded { text: Seq::empty(), replies: None }
}

/// The ids of the replies an answer names: those of a record whose text
/// and reply list are both well-shaped, and none otherwise.
pub open spec fn answer_kids(answer: Option<RecordView>) -> Seq<i64> {
    match answer {
        Some(rec) => match rec.kids {
            Field::Present(ids) => if rec.text is Malformed {
                Seq::empty()
            } else {
                ids
            },
            _ => Seq::empty(),
        },
        None => Seq::empty(),
    }
}

/// The text an answer carries: that of a record whose text and reply list
/// are both well-shaped, and the empty text otherwise.
pub open spec fn answer_text(answer: Option<RecordView>) -> Seq<char> {
    match answer {
        Some(rec) => match rec.text {
            Field::Present(text) => if rec.kids is Malformed {
                Seq::empty()
            } else {
                text
            },
            _ => Seq::empty(),
        },
        None => Seq::empty(),
    }
}

/// The node an answer turns an awaited branch into: the comment's text
/// over one awaited branch per reply it names, and no reply list at all
/// where it names none. A failed fetch and a record with a malformed text
/// or reply list give the empty leaf.
pub open spec fn answer_node(answer: Option<RecordView>) -> BranchView {
    BranchView::Loaded {
        text: answer_text(answer),
        replies: if answer_kids(answer).len() == 0 {
            None
        } else {
            Some(seedlings(answer_kids(answer)))
        },
    }
}

/// A branch with its awaited nodes replaced, left to right, by the nodes
/// of the answers.
pub open spec fn graft_in(b: BranchView, answers: Seq<Option<RecordView>>) -> BranchView
    decreases b,
{
    match b {
        BranchView::Awaiting(id) => answer_node(answers[0]),
        BranchView::Loaded { text, replies } => BranchView::Loaded {
            text,
            replies: match replies {
                None => None,
                Some(below) => Some(graft(below, answers)),
            },
        },
    }
}

/// A forest with its awaited nodes replaced, left to right, by the nodes
/// of the answers: the k-th awaited id gets the k-th answer.
pub open spec fn graft(forest: Seq<BranchView>, answers: Seq<Option<RecordView>>) -> Seq<
    BranchView,
>
    decreases forest,
{
    if forest.len() == 0 {
        Seq::empty()
    } else {
        let head = forest.drop_last();
        let k = awaited(head).len() as int;
        graft(head, answers.take(k)).push(graft_in(forest.last(), answers.skip(k)))
    }
}

/// The comment a finished branch stands for.
pub open spec fn thread_of(b: BranchView) -> Thread
    decreases b,
{
    match b {
        BranchView::Awaiting(id) => Thread { text: Seq::empty(), replies: None },
        BranchView::Loaded { text, replies } => Thread {
            text,
            replies: match replies {
                None => None,
                Some(below) => Some(threads_of(below)),
            },
        },
    }
}

/// The comments a finished forest stands for.
pub open spec fn threads_of(forest: Seq<BranchView>) -> Seq<Thread>
    decreases forest,
{
    Seq::new(
        forest.len(),
        |i: int|
            if 0 <= i < forest.len() {
                thread_of(forest[i])
            } else {
                arbitrary()
            },
    )
}

/// Whether every reply list in a branch has at least one reply.
pub open spec fn sound_in(b: BranchView) -> bool
    decreases b,
{
    match b {
        BranchView::Awaiting(id) => true,
        BranchView::Loaded { text, replies } => match replies {
            None => true,
            Some(below) => below.len() > 0 && sound(below),
        },
    }
}

/// Whether every reply list in a forest has at least one reply.
pub open spec fn sound(forest: Seq<BranchView>) -> bool
    decreases forest,
{
    forall|i: int| 0 <= i < forest.len() ==> sound_in(#[trigger] forest[i])
}

/// The awaited ids of a forest extended by one branch.
pub proof fn lemma_awaited_push(forest: Seq<BranchView>, b: BranchView)
    ensures
        awaited(forest.push(b)) == awaited(forest) + awaited_in(b),
{
    assert(forest.push(b).drop_last() =~= forest);
}

/// The awaited ids of two forests side by side.
pub proof fn lemma_awaited_concat(left: Seq<BranchView>, right: Seq<BranchView>)
    ensures
        awaited(left + right) == awaited(left) + awaited(right),
    decreases right.len(),
{
    if right.len() > 0 {
        lemma_awaited_concat(left, right.drop_last());
        assert((left + right).drop_last() =~= left + right.drop_last());
    }
}

/// A graft of a forest extended by one branch: the branch gets the answers
/// the forest before it leaves over.
pub proof fn lemma_graft_push(
    forest: Seq<BranchView>,
    b: BranchView,
    answers: Seq<Option<RecordView>>,
)
    ensures
        graft(forest.push(b), answers) == graft(
            forest,
            answers.take(awaited(forest).len() as int),
        ).push(graft_in(b, answers.skip(awaited(forest).len() as int))),
{
    assert(forest.push(b).drop_last() =~= forest);
}

/// Grafting keeps every reply list non-empty.
pub proof fn lemma_graft_in_sound(b: BranchView, answers: Seq<Option<RecordView>>)
    requires
        sound_in(b),
    ensures
        sound_in(graft_in(b, answers)),
    decreases b,
{
    match b {
        BranchView::Awaiting(id) => {
            let kids = answer_kids(answers[0]);
            assert(sound(seedlings(kids)));
        },
        BranchView::Loaded { text, replies } => match replies {
            None => {},
            Some(below) => {
                lemma_graft_sound(below, answers);
            },
        },
    }
}

/// Grafting keeps every reply list non-empty, and the number of trees.
pub proof fn lemma_graft_sound(forest: Seq<BranchView>, answers: Seq<Option<RecordView>>)
    requires
        sound(forest),
    ensures
        sound(graft(forest, answers)),
        graft(forest, answers).len() == forest.len(),
    decreases forest,
{
    if forest.len() > 0 {
        let head = forest.drop_last();
        let k = awaited(head).len() as int;
        lemma_graft_sound(head, answers.take(k));
        lemma_graft_in_sound(forest.last(), answers.skip(k));
    }
}

/// The ids of the replies that a batch of answers names, answer by
/// answer.
pub open spec fn all_kids(answers: Seq<Option<RecordView>>) -> Seq<i64>
    decreases answers.len(),
{
    if answers.len() == 0 {
        Seq::empty()
    } else {
        all_kids(answers.drop_last()) + answer_kids(answers.last())
    }
}

/// The reply ids of two batches side by side.
pub proof fn lemma_all_kids_concat(left: Seq<Option<RecordView>>, right: Seq<Option<RecordView>>)
    ensures
        all_kids(left + right) == all_kids(left) + all_kids(right),
    decreases right.len(),
{
    if right.len() > 0 {
        lemma_all_kids_concat(left, right.drop_last());
        assert((left + right).drop_last() =~= left + right.drop_last());
    }
}

/// Freshly awaited branches wait for exactly their ids, in order.
pub proof fn lemma_awaited_seedlings(ids: Seq<i64>)
    ensures
        awaited(seedlings(ids)) == ids,
    decreases ids.len(),
{
    if ids.len() > 0 {
        lemma_awaited_seedlings(ids.drop_last());
        assert(seedlings(ids).drop_last() =~= seedlings(ids.drop_last()));
        assert(awaited_in(seedlings(ids).last()) =~= seq![ids.last()]);
    }
}

/// Every top-level comment is built from its own answer alone: grafting a
/// batch into freshly awaited branches gives, place by place, the node of
/// the answer at that place.
pub proof fn lemma_graft_seedlings(ids: Seq<i64>, answers: Seq<Option<RecordView>>)
    requires
        answers.len() == ids.len(),
    ensures
        graft(seedlings(ids), answers) == Seq::new(ids.len(), |i: int| answer_node(answers[i])),
    decreases ids.len(),
{
    if ids.len() > 0 {
        let head = seedlings(ids).drop_last();
        assert(head =~= seedlings(ids.drop_last()));
        lemma_awaited_seedlings(ids.drop_last());
        let k = awaited(head).len() as int;
        lemma_graft_seedlings(ids.drop_last(), answers.take(k));
        assert(graft_in(seedlings(ids).last(), answers.skip(k)) == answer_node(answers[k]));
    }
}

/// A failed fetch leaves an empty leaf: a comment without text and without
/// replies, for which nothing further is fetched.
pub proof fn lemma_failed_answer()
    ensures
        answer_node(None) == empty_leaf(),
        awaited_in(empty_leaf()) == Seq::<i64>::empty(),
        sound_in(empty_leaf()),
        thread_of(empty_leaf()) == (Thread { text: Seq::empty(), replies: None }),
{
}

/// Sibling trees are grafted independently: each takes the answers to its
/// own awaited ids, so what one tree gets, a failed fetch included, has no
/// effect on the trees beside it.
pub proof fn lemma_graft_concat(
    left: Seq<BranchView>,
    right: Seq<BranchView>,
    answers: Seq<Option<RecordView>>,
)
    requires
        awaited(left).len() + awaited(right).len() <= answers.len(),
    ensures
        graft(left + right, answers) == graft(left, answers.take(awaited(left).len() as int))
            + graft(right, answers.skip(awaited(left).len() as int)),
    decreases right.len(),
{
    let k = awaited(left).len() as int;
    if right.len() == 0 {
        lemma_graft_prefix(left, answers, k);
    } else {
        let rest = right.drop_last();
        lemma_awaited_push(rest, right.last());
        lemma_graft_concat(left, rest, answers);
        lemma_awaited_concat(left, rest);
        assert((left + right).drop_last() =~= left + rest);
        let m = awaited(rest).len() as int;
        lemma_graft_prefix(left + rest, answers, k + m);
        lemma_graft_prefix(rest, answers.skip(k), m);
        assert(answers.skip(k).skip(m) =~= answers.skip(k + m));
    }
}

/// A failed fetch is isolated. Where the fetch of one awaited comment
/// fails, that comment becomes an empty leaf, and the trees to its left and
/// to its right are grafted from their own answers as if nothing had
/// failed.
pub proof fn lemma_failure_isolated(
    left: Seq<BranchView>,
    id: i64,
    right: Seq<BranchView>,
    answers: Seq<Option<RecordView>>,
)
    requires
        awaited(left).len() + 1 + awaited(right).len() <= answers.len(),
        answers[awaited(left).len() as int] is None,
    ensures
        graft(left.push(BranchView::Awaiting(id)) + right, answers) == graft(
            left,
            answers.take(awaited(left).len() as int),
        ).push(empty_leaf()) + graft(right, answers.skip(awaited(left).len() as int + 1)),
{
    let k = awaited(left).len() as int;
    let hole = BranchView::Awaiting(id);
    lemma_awaited_push(left, hole);
    lemma_graft_concat(left.push(hole), right, answers);
    lemma_graft_push(left, hole, answers.take(k + 1));
    assert(answers.take(k + 1).take(k) =~= answers.take(k));
}

/// A branch takes only as many answers as it awaits ids: answers beyond
/// those make no difference.
pub proof fn lemma_graft_in_prefix(b: BranchView, answers: Seq<Option<RecordView>>, n: int)
    requires
        awaited_in(b).len() <= n <= answers.len(),
    ensures
        graft_in(b, answers.take(n)) == graft_in(b, answers),
    decreases b,
{
    match b {
        BranchView::Awaiting(id) => {},
        BranchView::Loaded { text, replies } => match replies {
            None => {},
            Some(below) => {
                lemma_graft_prefix(below, answers, n);
            },
        },
    }
}

/// A forest takes only as many answers as it awaits ids: answers beyond
/// those make no difference.
pub proof fn lemma_graft_prefix(forest: Seq<BranchView>, answers: Seq<Option<RecordView>>, n: int)
    requires
        awaited(forest).len() <= n <= answers.len(),
    ensures
        graft(forest, answers.take(n)) == graft(forest, answers),
    decreases forest,
{
    if forest.len() > 0 {
        let head = forest.drop_last();
        let k = awaited(head).len() as int;
        lemma_graft_prefix(head, answers, k);
        lemma_graft_prefix(head, answers.take(n), k);
        assert(answers.take(n).take(k) =~= answers.take(k));
        lemma_graft_in_prefix(forest.last(), answers.skip(k), n - k);
        assert(answers.take(n).skip(k) =~= answers.skip(k).take(n - k));
    }
}

/// After a graft a branch waits for the replies its answers name, and for
/// nothing else.
pub proof fn lemma_graft_in_awaited(b: BranchView, answers: Seq<Option<RecordView>>)
    requires
        answers.len() == awaited_in(b).len(),
    ensures
        awaited_in(graft_in(b, answers)) == all_kids(answers),
    decreases b,
{
    match b {
        BranchView::Awaiting(id) => {
            lemma_awaited_seedlings(answer_kids(answers[0]));
            assert(all_kids(answers.drop_last()) =~= Seq::empty());
        },
        BranchView::Loaded { text, replies } => match replies {
            None => {},
            Some(below) => {
                lemma_graft_awaited(below, answers);
            },
        },
    }
}

/// What is fetched next is what was just answered names: after a graft a
/// forest waits for the replies named by the answers, answer by answer,
/// and for nothing else.
pub proof fn lemma_graft_awaited(forest: Seq<BranchView>, answers: Seq<Option<RecordView>>)
    requires
        answers.len() == awaited(forest).len(),
    ensures
        awaited(graft(forest, answers)) == all_kids(answers),
    decreases forest,
{
    if forest.len() > 0 {
        let head = forest.drop_last();
        let k = awaited(head).len() as int;
        lemma_graft_awaited(head, answers.take(k));
        lemma_graft_in_awaited(forest.last(), answers.skip(k));
        lemma_awaited_push(graft(head, answers.take(k)), graft_in(forest.last(), answers.skip(k)));
        lemma_all_kids_concat(answers.take(k), answers.skip(k));
        assert(answers.take(k) + answers.skip(k) =~= answers);
    }
}

/// Whether a branch is what `source` answers for the comment `id`, as far
/// as it is loaded: an awaited branch awaits `id`; a loaded one carries the
/// text that `source` gives for `id`, and below it one branch for each
/// reply that `source` names for `id`, in order, each of which is what
/// `source` answers for that reply.
pub open spec fn unfolds(source: spec_fn(i64) -> Option<RecordView>, b: BranchView, id: i64) -> bool
    decreases b,
{
    match b {
        BranchView::Awaiting(awaited_id) => awaited_id == id,
        BranchView::Loaded { text, replies } => {
            &&& text == answer_text(source(id))
            &&& match replies {
                None => answer_kids(source(id)).len() == 0,
                Some(below) => {
                    &&& below.len() > 0
                    &&& below.len() == answer_kids(source(id)).len()
                    &&& forall|i: int|
                        0 <= i < below.len() ==> unfolds(
                            source,
                            #[trigger] below[i],
                            answer_kids(source(id))[i],
                        )
                },
            }
        },
    }
}

/// Whether a forest is, tree by tree, what `source` answers for `ids`.
pub open spec fn unfolds_all(
    source: spec_fn(i64) -> Option<RecordView>,
    forest: Seq<BranchView>,
    ids: Seq<i64>,
) -> bool {
    &&& forest.len() == ids.len()
    &&& forall|i: int| 0 <= i < forest.len() ==> unfolds(source, #[trigger] forest[i], ids[i])
}

/// Whether each answer is what `source` gives for the id at its place.
pub open spec fn answers_from(
    source: spec_fn(i64) -> Option<RecordView>,
    ids: Seq<i64>,
    answers: Seq<Option<RecordView>>,
) -> bool {
    &&& answers.len() == ids.len()
    &&& forall|j: int| 0 <= j < ids.len() ==> #[trigger] answers[j] == source(ids[j])
}

/// `lemma_graft_unfolds` for one branch.
pub proof fn lemma_graft_in_unfolds(
    source: spec_fn(i64) -> Option<RecordView>,
    b: BranchView,
    id: i64,
    answers: Seq<Option<RecordView>>,
)
    requires
        unfolds(source, b, id),
        answers_from(source, awaited_in(b), answers),
    ensures
        unfolds(source, graft_in(b, answers), id),
    decreases b,
{
    match b {
        BranchView::Awaiting(awaited_id) => {
            let kids = answer_kids(source(id));
            assert forall|i: int| 0 <= i < kids.len() implies unfolds(
                source,
                #[trigger] seedlings(kids)[i],
                kids[i],
            ) by {}
        },
        BranchView::Loaded { text, replies } => match replies {
            None => {},
            Some(below) => {
                lemma_graft_unfolds(source, below, answer_kids(source(id)), answers);
                lemma_graft_len(below, answers);
            },
        },
    }
}

/// A graft has as many trees as the forest it is made of.
pub proof fn lemma_graft_len(forest: Seq<BranchView>, answers: Seq<Option<RecordView>>)
    ensures
        graft(forest, answers).len() == forest.len(),
    decreases forest.len(),
{
    if forest.len() > 0 {
        let head = forest.drop_last();
        lemma_graft_len(head, answers.take(awaited(head).len() as int));
    }
}

/// Before the first fetch the forest is what any source answers for its
/// ids: nothing is loaded yet.
pub proof fn lemma_seedlings_unfold(source: spec_fn(i64) -> Option<RecordView>, ids: Seq<i64>)
    ensures
        unfolds_all(source, seedlings(ids), ids),
{
    assert forall|i: int| 0 <= i < ids.len() implies unfolds(
        source,
        #[trigger] seedlings(ids)[i],
        ids[i],
    ) by {}
}

/// The tree is the unfolding of the answers. Where the comments are
/// fetched from a source that gives one answer for each id, a forest that
/// is what the source answers for `ids` stays so when the answers to its
/// awaited ids are grafted in. So the finished discussion holds, for each
/// of `ids` and in their order, the comment that the source gives for it,
/// over the discussions of the replies that the source names for it.
pub proof fn lemma_graft_unfolds(
    source: spec_fn(i64) -> Option<RecordView>,
    forest: Seq<BranchView>,
    ids: Seq<i64>,
    answers: Seq<Option<RecordView>>,
)
    requires
        unfolds_all(source, forest, ids),
        answers_from(source, awaited(forest), answers),
    ensures
        unfolds_all(source, graft(forest, answers), ids),
    decreases forest,
{
    lemma_graft_len(forest, answers);
    if forest.len() > 0 {
        let head = forest.drop_last();
        let k = awaited(head).len() as int;
        assert(awaited(forest) == awaited(head) + awaited_in(forest.last()));
        assert(answers_from(source, awaited(head), answers.take(k))) by {
            assert forall|j: int| 0 <= j < k implies #[trigger] answers.take(k)[j] == source(
                awaited(head)[j],
            ) by {
                assert(answers[j] == source(awaited(forest)[j]));
            }
        }
        assert(answers_from(source, awaited_in(forest.last()), answers.skip(k))) by {
            assert forall|j: int|
                0 <= j < awaited_in(forest.last()).len() implies #[trigger] answers.skip(k)[j]
                == source(awaited_in(forest.last())[j]) by {
                assert(answers[k + j] == source(awaited(forest)[k + j]));
            }
        }
        assert(unfolds_all(source, head, ids.drop_last())) by {
            assert forall|i: int| 0 <= i < head.len() implies unfolds(
                source,
                #[trigger] head[i],
                ids.drop_last()[i],
            ) by {
                assert(head[i] == forest[i]);
            }
        }
        lemma_graft_unfolds(source, head, ids.drop_last(), answers.take(k));
        assert(unfolds(source, forest.last(), ids.last())) by {
            assert(forest.last() == forest[forest.len() - 1]);
        }
        lemma_graft_in_unfolds(source, forest.last(), ids.last(), answers.skip(k));
        let grown = graft(forest, answers);
        let grown_head = graft(head, answers.take(k));
        assert forall|i: int| 0 <= i < grown.len() implies unfolds(
            source,
            #[trigger] grown[i],
            ids[i],
        ) by {
            if i < grown_head.len() {
                assert(grown[i] == grown_head[i]);
            }
        }
    }
}

fn seed(ids: &Vec<i64>) -> (out: Vec<Branch>)
    ensures
        branches(out@) == seedlings(ids@),
{
    let mut out: Vec<Branch> = Vec::new();
    let mut i: usize = 0;
    while i < ids.len()
        invariant
            i <= ids@.len(),
            out@.len() == i,
            forall|j: int| 0 <= j < i ==> (#[trigger] out@[j])@ == BranchView::Awaiting(ids@[j]),
        decreases ids@.len() - i,
    {
        out.push(Branch::Awaiting(ids[i]));
        i = i + 1;
    }
    out
}

fn sprout(answer: &Option<ItemRecord>) -> (b: Branch)
    ensures
        b@ == answer_node(
            match *answer {
                Some(rec) => Some(rec@),
                None => None,
            },
        ),
{
    match answer {
        None => Branch::Loaded { text: String::new(), replies: None },
        Some(rec) => {
            let text = match &rec.text {
                Field::Malformed => {
                    return Branch::Loaded { text: String::new(), replies: None };
                },
                Field::Absent => String::new(),
                Field::Present(s) => s.clone(),
            };
            match &rec.kids {
                Field::Malformed => Branch::Loaded { text: String::new(), replies: None },
                Field::Absent => Branch::Loaded { text, replies: None },
                Field::Present(ids) => {
                    if ids.len() == 0 {
                        Branch::Loaded { text, replies: None }
                    } else {
                        Branch::Loaded { text, replies: Some(seed(ids)) }
                    }
                },
            }
        },
    }
}

fn graft_branch(b: &Branch, answers: &Vec<Option<ItemRecord>>, start: usize) -> (r: (Branch, usize))
    requires
        start + awaited_in(b@).len() <= answers@.len(),
    ensures
        r.1 == start + awaited_in(b@).len(),
        r.0@ == graft_in(b@, answer_views(answers@).subrange(start as int, r.1 as int)),
    decreases b,
{
    match b {
        Branch::Awaiting(id) => {
            assert(answers@.len() == answers.len());
            let node = sprout(&answers[start]);
            (node, start + 1)
        },
        Branch::Loaded { text, replies } => match replies {
            None => (Branch::Loaded { text: text.clone(), replies: None }, start),
            Some(below) => {
                let (grown, next) = graft_forest(below, answers, start);
                (Branch::Loaded { text: text.clone(), replies: Some(grown) }, next)
            },
        },
    }
}

fn graft_forest(forest: &Vec<Branch>, answers: &Vec<Option<ItemRecord>>, start: usize) -> (r: (
    Vec<Branch>,
    usize,
))
    requires
        start + awaited(branches(forest@)).len() <= answers@.len(),
    ensures
        r.1 == start + awaited(branches(forest@)).len(),
        branches(r.0@) == graft(
            branches(forest@),
            answer_views(answers@).subrange(start as int, r.1 as int),
        ),
    decreases forest,
{
    let ghost all = branches(forest@);
    let ghost given = answer_views(answers@);
    let mut out: Vec<Branch> = Vec::new();
    let mut pos: usize = start;
    let mut i: usize = 0;
    while i < forest.len()
        invariant
            all == branches(forest@),
            given == answer_views(answers@),
            i <= forest@.len(),
            start + awaited(all).len() <= answers@.len(),
            pos == start + awaited(all.take(i as int)).len(),
            branches(out@) == graft(all.take(i as int), given.subrange(start as int, pos as int)),
        decreases forest@.len() - i,
    {
        proof {
            assert(all.take(i + 1) =~= all.take(i as int).push(all[i as int]));
            lemma_awaited_push(all.take(i as int), all[i as int]);
            assert(all =~= all.take(i + 1) + all.skip(i + 1));
            lemma_awaited_concat(all.take(i + 1), all.skip(i + 1));
        }
        let (node, next) = graft_branch(&forest[i], answers, pos);
        out.push(node);
        proof {
            lemma_graft_push(
                all.take(i as int),
                all[i as int],
                given.subrange(start as int, next as int),
            );
            let k = awaited(all.take(i as int)).len() as int;
            assert(given.subrange(start as int, next as int).take(k) =~= given.subrange(
                start as int,
                pos as int,
            ));
            assert(given.subrange(start as int, next as int).skip(k) =~= given.subrange(
                pos as int,
                next as int,
            ));
        }
        pos = next;
        i = i + 1;
    }
    assert(all.take(i as int) =~= all);
    (out, pos)
}

/// A finished branch whose reply lists are non-empty stands for a
/// well-formed comment.
pub proof fn lemma_thread_of_well_formed(b: BranchView)
    requires
        sound_in(b),
    ensures
        well_formed(thread_of(b)),
    decreases b,
{
    match b {
        BranchView::Awaiting(id) => {},
        BranchView::Loaded { text, replies } => match replies {
            None => {},
            Some(below) => {
                let grown = threads_of(below);
                assert forall|i: int| 0 <= i < grown.len() implies well_formed(
                    #[trigger] grown[i],
                ) by {
                    lemma_thread_of_well_formed(below[i]);
                }
            },
        },
    }
}

fn collect_branch(b: &Branch, out: &mut Vec<i64>)
    ensures
        final(out)@ == old(out)@ + awaited_in(b@),
    decreases b,
{
    match b {
        Branch::Awaiting(id) => {
            out.push(*id);
        },
        Branch::Loaded { text, replies } => match replies {
            None => {},
            Some(below) => {
                collect_forest(below, out);
            },
        },
    }
}

fn collect_forest(forest: &Vec<Branch>, out: &mut Vec<i64>)
    ensures
        final(out)@ == old(out)@ + awaited(branches(forest@)),
    decreases forest,
{
    let ghost all = branches(forest@);
    let mut i: usize = 0;
    while i < forest.len()
        invariant
            all == branches(forest@),
            i <= forest@.len(),
            out@ == old(out)@ + awaited(all.take(i as int)),
        decreases forest@.len() - i,
    {
        proof {
            assert(all.take(i + 1) =~= all.take(i as int).push(all[i as int]));
            lemma_awaited_push(all.take(i as int), all[i as int]);
        }
        collect_branch(&forest[i], out);
        i = i + 1;
    }
    assert(all.take(i as int) =~= all);
}

fn ripen_branch(b: &Branch) -> (r: Option<Comment>)
    ensures
        r is Some <==> awaited_in(b@).len() == 0,
        r matches Some(c) ==> c@ == thread_of(b@),
    decreases b,
{
    match b {
        Branch::Awaiting(id) => None,
        Branch::Loaded { text, replies } => match replies {
            None => Some(Comment { text: text.clone(), replies: None }),
            Some(below) => match ripen_forest(below) {
                Some(grown) => Some(Comment { text: text.clone(), replies: Some(grown) }),
                None => None,
            },
        },
    }
}

fn ripen_forest(forest: &Vec<Branch>) -> (r: Option<Vec<Comment>>)
    ensures
        r is Some <==> awaited(branches(forest@)).len() == 0,
        r matches Some(cs) ==> threads(cs@) == threads_of(branches(forest@)),
    decreases forest,
{
    let ghost all = branches(forest@);
    let mut out: Vec<Comment> = Vec::new();
    let mut i: usize = 0;
    while i < forest.len()
        invariant
            all == branches(forest@),
            i <= forest@.len(),
            out@.len() == i,
            awaited(all.take(i as int)).len() == 0,
            forall|j: int| 0 <= j < i ==> (#[trigger] out@[j])@ == thread_of(all[j]),
        decreases forest@.len() - i,
    {
        proof {
            assert(all.take(i + 1) =~= all.take(i as int).push(all[i as int]));
            lemma_awaited_push(all.take(i as int), all[i as int]);
            assert(all =~= all.take(i + 1) + all.skip(i + 1));
            lemma_awaited_concat(all.take(i + 1), all.skip(i + 1));
        }
        match ripen_branch(&forest[i]) {
            Some(c) => {
                out.push(c);
            },
            None => {
                return None;
            },
        }
        i = i + 1;
    }
    assert(all.take(i as int) =~= all);
    Some(out)
}

/// A reply tree under construction.
#[derive(Debug)]
pub struct TreeBuilder {
    forest: Vec<Branch>,
}

impl View for TreeBuilder {
    type V = Seq<BranchView>;

    closed spec fn view(&self) -> Seq<BranchView> {
        branches(self.forest@)
    }
}

impl TreeBuilder {
    #[verifier::type_invariant]
    spec fn reply_lists_nonempty(self) -> bool {
        sound(branches(self.forest@))
    }

    /// A builder that waits for the top-level comments `ids`.
    pub fn new(ids: &Vec<i64>) -> (builder: TreeBuilder)
        ensures
            builder@ == seedlings(ids@),
    {
        let forest = seed(ids);
        TreeBuilder { forest }
    }

    /// The ids to fetch next, in the order in which `supply` takes their
    /// answers.
    pub fn pending(&self) -> (ids: Vec<i64>)
        ensures
            ids@ == awaited(self@),
    {
        let mut ids: Vec<i64> = Vec::new();
        collect_forest(&self.forest, &mut ids);
        ids
    }

    /// Grafts one answer per pending id into the tree. A batch of another
    /// length is refused and leaves the tree as it was.
    pub fn supply(&mut self, answers: Vec<Option<ItemRecord>>) -> (accepted: bool)
        ensures
            accepted == (answers@.len() == awaited(old(self)@).len()),
            accepted ==> final(self)@ == graft(old(self)@, answer_views(answers@)),
            !accepted ==> final(self)@ == old(self)@,
    {
        proof {
            use_type_invariant(&*self);
        }
        let wanted = self.pending();
        if wanted.len() != answers.len() {
            return false;
        }
        let (grown, used) = graft_forest(&self.forest, &answers, 0);
        proof {
            assert(answer_views(answers@).subrange(0, used as int) =~= answer_views(answers@));
            lemma_graft_sound(branches(self.forest@), answer_views(answers@));
        }
        self.forest = grown;
        true
    }

    /// The finished discussion, once no comment is awaited any more.
    pub fn finish(&self) -> (r: Option<Vec<Comment>>)
        ensures
            r is Some <==> awaited(self@).len() == 0,
            r matches Some(comments) ==> threads(comments@) == threads_of(self@) && forall|i: int|
                0 <= i < comments@.len() ==> well_formed(#[trigger] threads(comments@)[i]),
    {
        proof {
            use_type_invariant(self);
        }
        let r = ripen_forest(&self.forest);
        proof {
            if r is Some {
                let comments = r->0;
                assert(threads(comments@).len() == comments@.len());
                assert forall|i: int| 0 <= i < comments@.len() implies well_formed(
                    #[trigger] threads(comments@)[i],
                ) by {
                    lemma_thread_of_well_formed(self@[i]);
                }
            }
        }
        r
    }
}

} // verus!
