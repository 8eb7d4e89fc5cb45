//! Operations on a repository's topics, applied in the order in which they
//! are declared.

use vstd::prelude::*;
use crate::models::repository::Topics;

verus! {

/// One declared operation on a topic set.
#[derive(Debug, Clone, PartialEq, Eq)]
pub enum TopicOperation {
    /// The topic is added unless it is there.
    MustExist { name: String },
    /// The topic is removed if it is there.
    MustNotExist { name: String },
    /// If `old_name` is there it is replaced by `name`; otherwise nothing
    /// happens, and `name` is not added.
    Rename { old_name: String, name: String },
}

pub type TopicOperations = Vec<TopicOperation>;

/// The set of names that a list holds.
pub open spec fn name_set(names: Seq<String>) -> Set<Seq<char>> {
    Set::new(|t: Seq<char>| exists|i: int| 0 <= i < names.len() && (#[trigger] names[i])@ == t)
}

/// No name occurs twice in the list.
pub open spec fn distinct_names(names: Seq<String>) -> bool {
    forall|i: int, j: int|
        0 <= i < j < names.len() ==> (#[trigger] names[i])@ != (#[trigger] names[j])@
}

/// The topic set after one operation.
pub open spec fn apply_operation(topics: Set<Seq<char>>, op: TopicOperation) -> Set<Seq<char>> {
    match op {
        TopicOperation::MustExist { name } => topics.insert(name@),
        TopicOperation::MustNotExist { name } => topics.remove(name@),
        TopicOperation::Rename { old_name, name } => if topics.contains(old_name@) {
            topics.remove(old_name@).insert(name@)
        } else {
            topics
        },
    }
}

/// The topic set after all operations, applied from the first to the last.
pub open spec fn apply_operations(topics: Set<Seq<char>>, ops: Seq<TopicOperation>) -> Set<
    Seq<char>,
>
    decreases ops.len(),
{
    if ops.len() == 0 {
        topics
    } else {
        apply_operation(apply_operations(topics, ops.drop_last()), ops.last())
    }
}

/// Whether the operation can put `topic` into a set.
pub open spec fn adds(op: TopicOperation, topic: Seq<char>) -> bool {
    match op {
        TopicOperation::MustExist { name } => name@ == topic,
        TopicOperation::MustNotExist { name } => false,
        TopicOperation::Rename { old_name, name } => name@ == topic,
    }
}

/// Whether the operation can take `topic` out of a set.
pub open spec fn drops(op: TopicOperation, topic: Seq<char>) -> bool {
    match op {
        TopicOperation::MustExist { name } => false,
        TopicOperation::MustNotExist { name } => name@ == topic,
        TopicOperation::Rename { old_name, name } => old_name@ == topic,
    }
}

/// Whether `op` works against `rename`: it puts in what the rename takes
/// out, or takes out what the rename puts in. Nothing works against an
/// operation that is no rename.
pub open spec fn works_against(op: TopicOperation, rename: TopicOperation) -> bool {
    match rename {
        TopicOperation::Rename { old_name, name } => adds(op, old_name@) || drops(op, name@),
        _ => false,
    }
}

/// The renames of the list stand alone: no operation of the list, the rename
/// itself included, works against one of them. A list without renames is of
/// this kind.
pub open spec fn renames_stand_alone(ops: Seq<TopicOperation>) -> bool {
    forall|i: int, j: int|
        0 <= i < ops.len() && 0 <= j < ops.len() ==> !works_against(
            #[trigger] ops[j],
            #[trigger] ops[i],
        )
}

/// Whether `rename` cannot take effect: the set lacks what it takes out, and
/// `op` does not put that in. This holds of an operation that is no rename.
spec fn stays_idle(topics: Set<Seq<char>>, rename: TopicOperation, op: TopicOperation) -> bool {
    match rename {
        TopicOperation::Rename { old_name, name } => !topics.contains(old_name@) && !adds(
            op,
            old_name@,
        ),
        _ => true,
    }
}

/// What the last `MustExist` or `MustNotExist` that names `topic` says of it:
/// present, absent, or nothing where there is none. Renames are not looked
/// at.
spec fn last_verdict(ops: Seq<TopicOperation>, topic: Seq<char>) -> Option<bool>
    decreases ops.len(),
{
    if ops.len() == 0 {
        None
    } else {
        match ops.last() {
            TopicOperation::MustExist { name } if name@ == topic => Some(true),
            TopicOperation::MustNotExist { name } if name@ == topic => Some(false),
            _ => last_verdict(ops.drop_last(), topic),
        }
    }
}

impl View for Topics {
    type V = Set<Seq<char>>;

    open spec fn view(&self) -> Set<Seq<char>> {
        name_set(self.names@)
    }
}

/// Whether `name` is in the list.
pub fn contains_name(names: &Vec<String>, name: &String) -> (found: bool)
    ensures
        found == name_set(names@).contains(name@),
{
    let mut i: usize = 0;
    while i < names.len()
        invariant
            i <= names.len(),
            forall|k: int| 0 <= k < i ==> (#[trigger] names[k])@ != name@,
        decreases names.len() - i,
    {
        if names[i] == *name {
            return true;
        }
        i += 1;
    }
    false
}

/// Adds `name` to the list unless it is there.
pub fn insert_name(names: &mut Vec<String>, name: &String)
    ensures
        name_set(final(names)@) == name_set(old(names)@).insert(name@),
        distinct_names(old(names)@) ==> distinct_names(final(names)@),
{
    if !contains_name(names, name) {
        names.push(name.clone());
        assert forall|t: Seq<char>| name_set(names@).contains(t) <==> name_set(old(names)@).insert(
            name@,
        ).contains(t) by {
            if name_set(names@).contains(t) {
                let i = choose|i: int| 0 <= i < names.len() && (#[trigger] names[i])@ == t;
                if i < old(names).len() {
                    assert(old(names)[i]@ == t);
                }
            }
            if name_set(old(names)@).contains(t) {
                let i = choose|i: int| 0 <= i < old(names).len() && (#[trigger] old(names)[i])@ == t;
                assert(names[i]@ == t);
            }
            if t == name@ {
                assert(names[old(names).len() as int]@ == t);
            }
        }
    }
    assert(name_set(names@) =~= name_set(old(names)@).insert(name@));
}

/// Removes every occurrence of `name` from the list, and says whether there
/// was one.
pub fn remove_name(names: &mut Vec<String>, name: &String) -> (found: bool)
    ensures
        found == name_set(old(names)@).contains(name@),
        name_set(final(names)@) == name_set(old(names)@).remove(name@),
        distinct_names(old(names)@) ==> distinct_names(final(names)@),
{
    let mut kept: Vec<String> = Vec::new();
    let ghost mut origin: Seq<int> = Seq::empty();
    let mut found = false;
    let mut i: usize = 0;
    while i < names.len()
        invariant
            i <= names.len(),
            *names == *old(names),
            found == exists|k: int| 0 <= k < i && (#[trigger] names[k])@ == name@,
            origin.len() == kept.len(),
            forall|k: int|
                0 <= k < kept.len() ==> 0 <= (#[trigger] origin[k]) < i && kept[k]@
                    == names[origin[k]]@ && kept[k]@ != name@,
            forall|k: int, l: int| 0 <= k < l < kept.len() ==> origin[k] < origin[l],
            forall|k: int|
                0 <= k < i && (#[trigger] names[k])@ != name@ ==> exists|l: int|
                    0 <= l < kept.len() && (#[trigger] kept[l])@ == names[k]@,
        decreases names.len() - i,
    {
        if names[i] == *name {
            found = true;
        } else {
            let ghost before = kept@;
            kept.push(names[i].clone());
            proof {
                origin = origin.push(i as int);
                assert forall|k: int|
                    0 <= k < i + 1 && (#[trigger] names[k])@ != name@ implies exists|l: int|
                    0 <= l < kept.len() && (#[trigger] kept[l])@ == names[k]@ by {
                    if k < i {
                        let l = choose|l: int|
                            0 <= l < before.len() && (#[trigger] before[l])@ == names[k]@;
                        assert(kept[l]@ == names[k]@);
                    } else {
                        assert(kept[kept.len() - 1]@ == names[k]@);
                    }
                }
            }
        }
        i += 1;
    }
    proof {
        assert forall|t: Seq<char>| name_set(kept@).contains(t) <==> name_set(old(names)@).remove(
            name@,
        ).contains(t) by {
            if name_set(kept@).contains(t) {
                let l = choose|l: int| 0 <= l < kept.len() && (#[trigger] kept[l])@ == t;
                assert(old(names)[origin[l]]@ == t);
            }
            if name_set(old(names)@).remove(name@).contains(t) {
                let k = choose|k: int| 0 <= k < old(names).len() && (#[trigger] old(names)[k])@ == t;
                assert(names[k]@ != name@);
            }
        }
        assert(name_set(kept@) =~= name_set(old(names)@).remove(name@));
        if distinct_names(old(names)@) {
            assert forall|k: int, l: int| 0 <= k < l < kept.len() implies (#[trigger] kept[k])@ != (
            #[trigger] kept[l])@ by {
                assert(origin[k] < origin[l]);
                assert(old(names)[origin[k]]@ != old(names)[origin[l]]@);
            }
        }
    }
    *names = kept;
    found
}

impl TopicOperation {
    /// Carries out this operation on a list of topics.
    pub fn apply(&self, names: &mut Vec<String>)
        ensures
            name_set(final(names)@) == apply_operation(name_set(old(names)@), *self),
            distinct_names(old(names)@) ==> distinct_names(final(names)@),
    {
        match self {
            TopicOperation::MustExist { name } => {
                insert_name(names, name);
            },
            TopicOperation::MustNotExist { name } => {
                remove_name(names, name);
            },
            TopicOperation::Rename { old_name, name } => {
                if remove_name(names, old_name) {
                    insert_name(names, name);
                }
            },
        }
    }
}

impl Topics {
    /// No topic is listed twice.
    pub open spec fn wf(&self) -> bool {
        distinct_names(self.names@)
    }

    /// The topics named in `names`, each listed once.
    pub fn from_names(names: Vec<String>) -> (topics: Topics)
        ensures
            topics.wf(),
            topics@ == name_set(names@),
    {
        let mut kept: Vec<String> = Vec::new();
        let mut i: usize = 0;
        assert(name_set(kept@) =~= name_set(names@.take(0)));
        while i < names.len()
            invariant
                i <= names.len(),
                distinct_names(kept@),
                name_set(kept@) == name_set(names@.take(i as int)),
            decreases names.len() - i,
        {
            insert_name(&mut kept, &names[i]);
            proof {
                lemma_name_set_take(names@, i as int);
            }
            i += 1;
        }
        assert(names@.take(names.len() as int) =~= names@);
        Topics { names: kept }
    }

    /// Whether `name` is one of the topics.
    pub fn contains(&self, name: &String) -> (found: bool)
        ensures
            found == self@.contains(name@),
    {
        contains_name(&self.names, name)
    }

    /// Whether two topic lists hold the same set of names.
    pub fn same_as(&self, other: &Topics) -> (same: bool)
        ensures
            same == (self@ == other@),
    {
        let same = includes(&other.names, &self.names) && includes(&self.names, &other.names);
        proof {
            if same {
                assert(self@ =~= other@);
            }
        }
        same
    }

    /// The topics of `self` that `other` lacks.
    pub fn difference(&self, other: &Topics) -> (rest: Vec<String>)
        ensures
            name_set(rest@) == self@.difference(other@),
            self.wf() ==> distinct_names(rest@),
    {
        let mut rest: Vec<String> = Vec::new();
        let ghost mut origin: Seq<int> = Seq::empty();
        let mut i: usize = 0;
        while i < self.names.len()
            invariant
                i <= self.names.len(),
                origin.len() == rest.len(),
                forall|k: int|
                    0 <= k < rest.len() ==> 0 <= (#[trigger] origin[k]) < i && rest[k]@
                        == self.names[origin[k]]@ && !other@.contains(rest[k]@),
                forall|k: int, l: int| 0 <= k < l < rest.len() ==> origin[k] < origin[l],
                forall|k: int|
                    0 <= k < i && !other@.contains((#[trigger] self.names[k])@) ==> exists|l: int|
                        0 <= l < rest.len() && (#[trigger] rest[l])@ == self.names[k]@,
            decreases self.names.len() - i,
        {
            if !contains_name(&other.names, &self.names[i]) {
                let ghost before = rest@;
                rest.push(self.names[i].clone());
                proof {
                    origin = origin.push(i as int);
                    assert forall|k: int|
                        0 <= k < i + 1 && !other@.contains(
                            (#[trigger] self.names[k])@,
                        ) implies exists|l: int|
                        0 <= l < rest.len() && (#[trigger] rest[l])@ == self.names[k]@ by {
                        if k < i {
                            let l = choose|l: int|
                                0 <= l < before.len() && (#[trigger] before[l])@ == self.names[k]@;
                            assert(rest[l]@ == self.names[k]@);
                        } else {
                            assert(rest[rest.len() - 1]@ == self.names[k]@);
                        }
                    }
                }
            }
            i += 1;
        }
        proof {
            assert forall|t: Seq<char>| name_set(rest@).contains(t) <==> self@.difference(
                other@,
            ).contains(t) by {
                if name_set(rest@).contains(t) {
                    let l = choose|l: int| 0 <= l < rest.len() && (#[trigger] rest[l])@ == t;
                    assert(self.names[origin[l]]@ == t);
                }
                if self@.difference(other@).contains(t) {
                    let k = choose|k: int|
                        0 <= k < self.names.len() && (#[trigger] self.names[k])@ == t;
                    assert(!other@.contains(self.names[k]@));
                }
            }
            assert(name_set(rest@) =~= self@.difference(other@));
            if self.wf() {
                assert forall|k: int, l: int| 0 <= k < l < rest.len() implies (
                #[trigger] rest[k])@ != (#[trigger] rest[l])@ by {
                    assert(origin[k] < origin[l]);
                    assert(self.names[origin[k]]@ != self.names[origin[l]]@);
                }
            }
        }
        rest
    }

    /// The topics that result from applying `ops`, one after the other, to
    /// these topics.
    pub fn apply(&self, ops: &Vec<TopicOperation>) -> (result: Topics)
        ensures
            result@ == apply_operations(self@, ops@),
            self.wf() ==> result.wf(),
    {
        let mut names = self.names.clone();
        assert(names@ =~= self.names@) by {
            assert forall|k: int| 0 <= k < names.len() implies names[k] == self.names[k] by {
                assert(cloned(self.names[k], names[k]));
            }
        }
        let mut i: usize = 0;
        assert(ops@.take(0) =~= Seq::empty());
        while i < ops.len()
            invariant
                i <= ops.len(),
                name_set(names@) == apply_operations(self@, ops@.take(i as int)),
                self.wf() ==> distinct_names(names@),
            decreases ops.len() - i,
        {
            ops[i].apply(&mut names);
            proof {
                assert(ops@.take(i + 1).drop_last() =~= ops@.take(i as int));
                assert(ops@.take(i + 1).last() == ops@[i as int]);
            }
            i += 1;
        }
        assert(ops@.take(ops.len() as int) =~= ops@);
        Topics { names }
    }
}

/// Whether every name of `part` is in `whole`.
fn includes(whole: &Vec<String>, part: &Vec<String>) -> (all: bool)
    ensures
        all == name_set(part@).subset_of(name_set(whole@)),
{
    let mut i: usize = 0;
    while i < part.len()
        invariant
            i <= part.len(),
            forall|k: int| 0 <= k < i ==> name_set(whole@).contains((#[trigger] part[k])@),
        decreases part.len() - i,
    {
        if !contains_name(whole, &part[i]) {
            assert(name_set(part@).contains(part[i as int]@));
            return false;
        }
        i += 1;
    }
    true
}

proof fn lemma_name_set_take(names: Seq<String>, i: int)
    requires
        0 <= i < names.len(),
    ensures
        name_set(names.take(i + 1)) == name_set(names.take(i)).insert(names[i]@),
{
    let a = name_set(names.take(i + 1));
    let b = name_set(names.take(i)).insert(names[i]@);
    assert forall|t: Seq<char>| a.contains(t) <==> b.contains(t) by {
        if a.contains(t) {
            let k = choose|k: int| 0 <= k < i + 1 && (#[trigger] names.take(i + 1)[k])@ == t;
            if k < i {
                assert(names.take(i)[k]@ == t);
            }
        }
        if name_set(names.take(i)).contains(t) {
            let k = choose|k: int| 0 <= k < i && (#[trigger] names.take(i)[k])@ == t;
            assert(names.take(i + 1)[k]@ == t);
        }
        if t == names[i]@ {
            assert(names.take(i + 1)[i]@ == t);
        }
    }
    assert(a =~= b);
}

/// A topic that the set lacks and that no operation puts in is not in the
/// outcome.
proof fn lemma_never_added_stays_out(
    topics: Set<Seq<char>>,
    ops: Seq<TopicOperation>,
    topic: Seq<char>,
)
    requires
        !topics.contains(topic),
        forall|j: int| 0 <= j < ops.len() ==> !adds(#[trigger] ops[j], topic),
    ensures
        !apply_operations(topics, ops).contains(topic),
    decreases ops.len(),
{
    if ops.len() > 0 {
        assert forall|j: int| 0 <= j < ops.drop_last().len() implies !adds(
            #[trigger] ops.drop_last()[j],
            topic,
        ) by {
            assert(ops.drop_last()[j] == ops[j]);
        }
        lemma_never_added_stays_out(topics, ops.drop_last(), topic);
        assert(!adds(ops[ops.len() - 1], topic));
    }
}

/// A topic that the rename at `i` takes out and that no operation puts in is
/// not in the outcome.
proof fn lemma_renamed_away_is_out(
    topics: Set<Seq<char>>,
    ops: Seq<TopicOperation>,
    topic: Seq<char>,
    i: int,
)
    requires
        0 <= i < ops.len(),
        ops[i] is Rename,
        drops(ops[i], topic),
        forall|j: int| 0 <= j < ops.len() ==> !adds(#[trigger] ops[j], topic),
    ensures
        !apply_operations(topics, ops).contains(topic),
    decreases ops.len(),
{
    assert(!adds(ops[ops.len() - 1], topic));
    if i < ops.len() - 1 {
        assert forall|j: int| 0 <= j < ops.drop_last().len() implies !adds(
            #[trigger] ops.drop_last()[j],
            topic,
        ) by {
            assert(ops.drop_last()[j] == ops[j]);
        }
        assert(ops.drop_last()[i] == ops[i]);
        lemma_renamed_away_is_out(topics, ops.drop_last(), topic, i);
    }
}

/// Where no rename can take effect, the last `MustExist` or `MustNotExist`
/// that names a topic decides whether it is in the outcome, and the starting
/// set where there is none.
proof fn lemma_membership_with_idle_renames(
    topics: Set<Seq<char>>,
    ops: Seq<TopicOperation>,
    topic: Seq<char>,
)
    requires
        forall|i: int, j: int|
            0 <= i < ops.len() && 0 <= j < ops.len() ==> stays_idle(
                topics,
                #[trigger] ops[i],
                #[trigger] ops[j],
            ),
    ensures
        apply_operations(topics, ops).contains(topic) == match last_verdict(ops, topic) {
            Some(present) => present,
            None => topics.contains(topic),
        },
    decreases ops.len(),
{
    if ops.len() > 0 {
        let before = ops.drop_last();
        assert forall|i: int, j: int| 0 <= i < before.len() && 0 <= j < before.len() implies stays_idle(
            topics,
            #[trigger] before[i],
            #[trigger] before[j],
        ) by {
            assert(stays_idle(topics, ops[i], ops[j]));
        }
        lemma_membership_with_idle_renames(topics, before, topic);
        let last = ops[ops.len() - 1];
        match last {
            TopicOperation::Rename { old_name, name } => {
                assert(stays_idle(topics, last, ops[0]));
                assert forall|j: int| 0 <= j < before.len() implies !adds(
                    #[trigger] before[j],
                    old_name@,
                ) by {
                    assert(stays_idle(topics, last, ops[j]));
                }
                lemma_never_added_stays_out(topics, before, old_name@);
            },
            _ => {},
        }
    }
}

/// A verdict comes from an operation of the list: `MustExist` for present,
/// `MustNotExist` for absent.
proof fn lemma_verdict_has_a_source(ops: Seq<TopicOperation>, topic: Seq<char>) -> (j: int)
    requires
        last_verdict(ops, topic) is Some,
    ensures
        0 <= j < ops.len(),
        last_verdict(ops, topic) == Some(true) ==> adds(ops[j], topic),
        last_verdict(ops, topic) == Some(false) ==> drops(ops[j], topic),
    decreases ops.len(),
{
    let last = ops[ops.len() - 1];
    if adds(last, topic) && last is MustExist {
        ops.len() - 1
    } else if drops(last, topic) && last is MustNotExist {
        ops.len() - 1
    } else {
        let j = lemma_verdict_has_a_source(ops.drop_last(), topic);
        assert(ops.drop_last()[j] == ops[j]);
        j
    }
}

proof fn lemma_stand_alone_prefix(ops: Seq<TopicOperation>)
    requires
        renames_stand_alone(ops),
        ops.len() > 0,
    ensures
        renames_stand_alone(ops.drop_last()),
{
    let before = ops.drop_last();
    assert forall|i: int, j: int| 0 <= i < before.len() && 0 <= j < before.len() implies !works_against(
        #[trigger] before[j],
        #[trigger] before[i],
    ) by {
        assert(!works_against(ops[j], ops[i]));
    }
}

/// Where the renames stand alone, a topic for which there is a verdict is in
/// the outcome exactly if the verdict says so, whatever the starting set.
proof fn lemma_verdict_holds(topics: Set<Seq<char>>, ops: Seq<TopicOperation>, topic: Seq<char>)
    requires
        renames_stand_alone(ops),
        last_verdict(ops, topic) is Some,
    ensures
        apply_operations(topics, ops).contains(topic) == last_verdict(ops, topic)->0,
    decreases ops.len(),
{
    let last = ops[ops.len() - 1];
    let before = ops.drop_last();
    lemma_stand_alone_prefix(ops);
    match last {
        TopicOperation::MustExist { name } => {
            if name@ != topic {
                lemma_verdict_holds(topics, before, topic);
            }
        },
        TopicOperation::MustNotExist { name } => {
            if name@ != topic {
                lemma_verdict_holds(topics, before, topic);
            }
        },
        TopicOperation::Rename { old_name, name } => {
            lemma_verdict_holds(topics, before, topic);
            let j = lemma_verdict_has_a_source(before, topic);
            assert(before[j] == ops[j]);
            assert(!works_against(ops[j], ops[ops.len() - 1]));
        },
    }
}

/// The order of the operations matters. On a set that holds `a`, removing
/// `a` and then renaming it to `b` leaves the rename without effect, while
/// renaming first puts `b` in; the two outcomes differ unless the set held
/// `b` from the start.
pub proof fn lemma_order_matters(topics: Set<Seq<char>>, a: String, b: String)
    requires
        topics.contains(a@),
        a@ != b@,
    ensures
        apply_operations(
            topics,
            seq![
                TopicOperation::MustNotExist { name: a },
                TopicOperation::Rename { old_name: a, name: b },
            ],
        ) == topics.remove(a@),
        apply_operations(
            topics,
            seq![
                TopicOperation::Rename { old_name: a, name: b },
                TopicOperation::MustNotExist { name: a },
            ],
        ) == topics.remove(a@).insert(b@),
        !topics.contains(b@) ==> topics.remove(a@) != topics.remove(a@).insert(b@),
{
    let remove = TopicOperation::MustNotExist { name: a };
    let rename = TopicOperation::Rename { old_name: a, name: b };
    let first = seq![remove, rename];
    let second = seq![rename, remove];
    assert(first.drop_last() =~= seq![remove]);
    assert(second.drop_last() =~= seq![rename]);
    assert(seq![remove].drop_last() =~= Seq::<TopicOperation>::empty());
    assert(seq![rename].drop_last() =~= Seq::<TopicOperation>::empty());
    reveal_with_fuel(apply_operations, 3);
    assert(apply_operations(topics, first) =~= topics.remove(a@));
    assert(apply_operations(topics, second) =~= topics.remove(a@).insert(b@));
    if !topics.contains(b@) {
        assert(topics.remove(a@).insert(b@).contains(b@));
        assert(!topics.remove(a@).contains(b@));
    }
}

/// Applying a list of operations whose renames stand alone a second time, to
/// the set that the first application gave, changes nothing.
pub proof fn lemma_second_application_changes_nothing(
    topics: Set<Seq<char>>,
    ops: Seq<TopicOperation>,
)
    requires
        renames_stand_alone(ops),
    ensures
        apply_operations(apply_operations(topics, ops), ops) == apply_operations(topics, ops),
{
    let once = apply_operations(topics, ops);
    let twice = apply_operations(once, ops);
    assert forall|i: int, j: int| 0 <= i < ops.len() && 0 <= j < ops.len() implies stays_idle(
        once,
        #[trigger] ops[i],
        #[trigger] ops[j],
    ) by {
        match ops[i] {
            TopicOperation::Rename { old_name, name } => {
                assert forall|k: int| 0 <= k < ops.len() implies !adds(
                    #[trigger] ops[k],
                    old_name@,
                ) by {
                    assert(!works_against(ops[k], ops[i]));
                }
                lemma_renamed_away_is_out(topics, ops, old_name@, i);
                assert(!works_against(ops[j], ops[i]));
            },
            _ => {},
        }
    }
    assert forall|t: Seq<char>| twice.contains(t) == once.contains(t) by {
        lemma_membership_with_idle_renames(once, ops, t);
        if last_verdict(ops, t) is Some {
            lemma_verdict_holds(topics, ops, t);
        }
    }
    assert(twice =~= once);
}

} // verus!
