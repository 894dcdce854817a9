//! The document, the queries, and the object registry.
//!
//! A `Structure` is a loaded document: named objects, a start query, and
//! the session settings. An `ImageContext` is the registry derived from
//! it once per render: name lookup plus a tag index, immutable for the
//! whole render. A `QueryResult` resolves one query, honoring the
//! choose-once / choose-every-time semantics.
//!
//! Duplicate names follow a last-write-wins policy: a later entry with
//! the same name shadows an earlier one, for lookup and for the tag
//! index alike.

use crate::canvas::Palette;
use crate::objects::Object;
use crate::random::RandomSource;
use vstd::prelude::*;

verus! {

/// Which palette the host should generate for the render session.
#[derive(Clone, Copy, PartialEq, Eq, Structural, Debug)]
pub enum ColorScheme {
    /// Dark filling on a bright background.
    DarkOnBright,
    /// Bright filling on a dark background.
    BrightOnDark,
}

/// Whether a query's random pick is made once per resolver and then
/// cached, or re-rolled on every resolution.
#[derive(Clone, Copy, PartialEq, Eq, Structural, Debug)]
pub enum Choose {
    /// Cache the first resolution (even a miss) for the resolver's life.
    Once,
    /// Re-run the randomized resolution on every call.
    EveryTime,
}

impl Default for Choose {
    /// The mode a document gets when it names none.
    fn default() -> (c: Self)
        ensures
            c == Choose::EveryTime,
    {
        Choose::EveryTime
    }
}

/// A selector for the object to render: by exact name, a random pick
/// among names, or a random pick among the objects carrying a tag.
pub enum Query {
    /// The object with this exact name; a missing name resolves to
    /// nothing.
    ByName { by_name: String, pick_mode: Choose },
    /// A uniformly random pick among the listed names, then a name
    /// lookup; an empty list resolves to nothing.
    OneOfNames { one_of_names: Vec<String>, pick_mode: Choose },
    /// A uniformly random pick among the listed tags, then a uniformly
    /// random pick among that tag's objects; an empty list or an unused
    /// tag resolves to nothing.
    ByTag { by_tag: Vec<String>, pick_mode: Choose },
}

impl Query {
    /// The query's choose mode.
    pub fn get_choose(&self) -> (c: &Choose)
        ensures
            *c == self.spec_choose(),
    {
        match self {
            Query::ByName { by_name: _, pick_mode } => pick_mode,
            Query::OneOfNames { one_of_names: _, pick_mode } => pick_mode,
            Query::ByTag { by_tag: _, pick_mode } => pick_mode,
        }
    }

    /// The query's choose mode.
    pub open spec fn spec_choose(self) -> Choose {
        match self {
            Query::ByName { by_name: _, pick_mode } => pick_mode,
            Query::OneOfNames { one_of_names: _, pick_mode } => pick_mode,
            Query::ByTag { by_tag: _, pick_mode } => pick_mode,
        }
    }
}

/// A loaded document: the named objects, the start query, and the
/// session settings. Lengths are milli-units; `depth` is the recursion
/// budget in query steps.
pub struct Structure {
    /// Width of the picture in device units.
    pub width: i32,
    /// Height of the picture in device units.
    pub height: i32,
    /// The named objects, in document order; a later entry shadows an
    /// earlier one of the same name.
    pub objects: Vec<(String, Object)>,
    /// The query that finds the first object to draw.
    pub start: Query,
    /// The color scheme the host generates the palette from.
    pub color_scheme: ColorScheme,
    /// Line width for strokes, milli-units, unaffected by scaling.
    pub line_size: i64,
    /// How many queries in a row may run before rendering stops.
    pub depth: i32,
}

/// The index of the entry `name` resolves to: the last entry with that
/// name, or nothing.
pub open spec fn spec_lookup(objects: Seq<(String, Object)>, name: Seq<char>) -> Option<int>
    decreases objects.len(),
{
    if objects.len() == 0 {
        None
    } else if objects.last().0@ == name {
        Some(objects.len() - 1)
    } else {
        spec_lookup(objects.drop_last(), name)
    }
}

/// What a lookup result means: a hit is the last entry with the name, a
/// miss means no entry has it.
pub proof fn lemma_lookup_last(objects: Seq<(String, Object)>, name: Seq<char>)
    ensures
        match spec_lookup(objects, name) {
            None => forall|i: int|
                0 <= i < objects.len() ==> (#[trigger] objects[i]).0@ != name,
            Some(k) => {
                &&& 0 <= k < objects.len()
                &&& objects[k].0@ == name
                &&& forall|i: int| k < i < objects.len() ==> (#[trigger] objects[i]).0@ != name
            },
        },
    decreases objects.len(),
{
    if objects.len() > 0 && objects.last().0@ != name {
        lemma_lookup_last(objects.drop_last(), name);
        assert(forall|i: int|
            0 <= i < objects.len() - 1 ==> #[trigger] objects[i] == objects.drop_last()[i]);
    }
}

/// An entry is a winner when no later entry shadows its name.
pub open spec fn is_winner(objects: Seq<(String, Object)>, i: int) -> bool {
    spec_lookup(objects, objects[i].0@) == Some(i)
}

/// The buckets of the tag index with both parts viewed: the tag as its
/// characters, the content as the sequence of object indices.
pub open spec fn buckets_view(buckets: Seq<(String, Vec<usize>)>) -> Seq<(Seq<char>, Seq<usize>)> {
    buckets.map_values(|b: (String, Vec<usize>)| (b.0@, b.1@))
}

/// Append `idx` to the first bucket of `tag`, opening a new bucket at
/// the end if no bucket has the tag yet.
pub open spec fn spec_tag_insert(
    buckets: Seq<(Seq<char>, Seq<usize>)>,
    tag: Seq<char>,
    idx: usize,
) -> Seq<(Seq<char>, Seq<usize>)>
    decreases buckets.len(),
{
    if buckets.len() == 0 {
        seq![(tag, seq![idx])]
    } else if buckets.first().0 == tag {
        seq![(buckets.first().0, buckets.first().1.push(idx))] + buckets.drop_first()
    } else {
        seq![buckets.first()] + spec_tag_insert(buckets.drop_first(), tag, idx)
    }
}

/// The buckets after adding entry `idx` under each of its tags in turn.
pub open spec fn spec_add_tags(
    buckets: Seq<(Seq<char>, Seq<usize>)>,
    tags: Seq<String>,
    idx: usize,
) -> Seq<(Seq<char>, Seq<usize>)>
    decreases tags.len(),
{
    if tags.len() == 0 {
        buckets
    } else {
        spec_tag_insert(spec_add_tags(buckets, tags.drop_last(), idx), tags.last()@, idx)
    }
}

/// The tag index over the first `upto` entries: each winner's index is
/// appended under each of its tags, entry order outside, tag order
/// inside, so every bucket is ascending and holds only winners that
/// carry its tag.
pub open spec fn spec_build_tags(objects: Seq<(String, Object)>, upto: int) -> Seq<
    (Seq<char>, Seq<usize>),
>
    decreases upto,
{
    if upto <= 0 {
        Seq::empty()
    } else {
        let prev = spec_build_tags(objects, upto - 1);
        if is_winner(objects, upto - 1) {
            spec_add_tags(prev, objects[upto - 1].1.spec_tags(), (upto - 1) as usize)
        } else {
            prev
        }
    }
}

/// The contents of the first bucket of `tag`, or empty if none is.
pub open spec fn spec_bucket(buckets: Seq<(Seq<char>, Seq<usize>)>, tag: Seq<char>) -> Seq<usize>
    decreases buckets.len(),
{
    if buckets.len() == 0 {
        Seq::empty()
    } else if buckets.first().0 == tag {
        buckets.first().1
    } else {
        spec_bucket(buckets.drop_first(), tag)
    }
}

/// The registry a render runs against: the document's objects, the
/// derived tag index, and the session palette. Immutable for the whole
/// render.
pub struct ImageContext<'a> {
    /// The named objects, borrowed from the document.
    pub objects: &'a Vec<(String, Object)>,
    /// The derived tag index: tag to the indices of the objects
    /// carrying it.
    pub tags: Vec<(String, Vec<usize>)>,
    /// The two colors of the session.
    pub palette: Palette,
}

impl<'a> ImageContext<'a> {
    /// The tag index is exactly the one derived from the objects.
    pub open spec fn wf(self) -> bool {
        buckets_view(self.tags@) == spec_build_tags(self.objects@, self.objects@.len() as int)
    }

    /// The bucket `tag` resolves to in this registry.
    pub open spec fn spec_tag_bucket(self, tag: Seq<char>) -> Seq<usize> {
        spec_bucket(buckets_view(self.tags@), tag)
    }

    /// The registry of a loaded document under a session palette: the
    /// borrowed objects and the tag index built by one scan over them.
    pub fn new(structure: &'a Structure, palette: Palette) -> (ctx: ImageContext<'a>)
        ensures
            ctx.objects == &structure.objects,
            ctx.palette == palette,
            ctx.wf(),
    {
        let objects = &structure.objects;
        let n = objects.len();
        let mut tags: Vec<(String, Vec<usize>)> = Vec::new();
        for i in 0..n
            invariant
                n == objects@.len(),
                buckets_view(tags@) == spec_build_tags(objects@, i as int),
        {
            if is_winner_scan(objects, i) {
                let obj_tags = objects[i].1.get_tags();
                let m = obj_tags.len();
                for t in 0..m
                    invariant
                        n == objects@.len(),
                        i < n,
                        m == obj_tags@.len(),
                        obj_tags@ == objects@[i as int].1.spec_tags(),
                        is_winner(objects@, i as int),
                        buckets_view(tags@) == spec_add_tags(
                            spec_build_tags(objects@, i as int),
                            obj_tags@.take(t as int),
                            i,
                        ),
                {
                    tag_insert(&mut tags, &obj_tags[t], i);
                    proof {
                        assert(obj_tags@.take(t + 1).drop_last() =~= obj_tags@.take(t as int));
                        assert(obj_tags@.take(t + 1).last() == obj_tags@[t as int]);
                    }
                }
                proof {
                    assert(obj_tags@.take(m as int) =~= obj_tags@);
                }
            }
        }
        ImageContext { objects, tags, palette }
    }

    /// The session palette.
    pub fn palette(&self) -> (p: &Palette)
        ensures
            *p == self.palette,
    {
        &self.palette
    }

    /// The index the name resolves to, scanning for the last entry with
    /// that name.
    pub fn lookup_by_name(&self, name: &String) -> (r: Option<usize>)
        ensures
            opt_index(r) == spec_lookup(self.objects@, name@),
            r is Some ==> r->0 < self.objects@.len(),
    {
        proof {
            lemma_lookup_last(self.objects@, name@);
        }
        let n = self.objects.len();
        let mut j = n;
        while j > 0
            invariant
                j <= n,
                n == self.objects@.len(),
                forall|k: int| j <= k < n ==> (#[trigger] self.objects@[k]).0@ != name@,
            decreases j,
        {
            j = j - 1;
            let entry = &self.objects[j];
            if entry.0 == *name {
                proof {
                    lemma_lookup_last(self.objects@, name@);
                    let r = spec_lookup(self.objects@, name@);
                    if r is None {
                        assert(self.objects@[j as int].0@ != name@);
                    } else {
                        let k = r->0;
                        if k < j as int {
                            assert(self.objects@[j as int].0@ != name@);
                        }
                        if k > j as int {
                            assert(self.objects@[k].0@ != name@);
                        }
                    }
                }
                return Some(j);
            }
        }
        None
    }

    /// The bucket of `tag`, or nothing when the index has no such
    /// bucket (an empty result and a missing bucket read the same).
    pub fn lookup_by_tag(&self, tag: &String) -> (r: Option<&Vec<usize>>)
        ensures
            match r {
                Some(b) => b@ == self.spec_tag_bucket(tag@),
                None => self.spec_tag_bucket(tag@) == Seq::<usize>::empty(),
            },
    {
        let n = self.tags.len();
        proof {
            assert(buckets_view(self.tags@).skip(0) =~= buckets_view(self.tags@));
        }
        for i in 0..n
            invariant
                n == self.tags@.len(),
                spec_bucket(buckets_view(self.tags@), tag@) == spec_bucket(
                    buckets_view(self.tags@).skip(i as int),
                    tag@,
                ),
        {
            let entry = &self.tags[i];
            proof {
                assert(buckets_view(self.tags@).skip(i as int).first() == (
                    self.tags@[i as int].0@,
                    self.tags@[i as int].1@,
                ));
                assert(buckets_view(self.tags@).skip(i as int).drop_first() =~= buckets_view(
                    self.tags@,
                ).skip(i + 1));
            }
            if entry.0 == *tag {
                return Some(&entry.1);
            }
        }
        None
    }

    /// A resolver for `query`: dead on arrival when the depth budget is
    /// spent, otherwise ready to resolve.
    pub fn get_element_from_query<'b>(&self, query: &'b Query, depth: i32) -> (r: QueryResult<'b>)
        ensures
            r.query == query,
            r.is_dead_end == (depth < 1),
            r.current_item == CurrentItem::Uninitalized,
    {
        if depth < 1 {
            QueryResult { query, current_item: CurrentItem::Uninitalized, is_dead_end: true }
        } else {
            QueryResult { query, current_item: CurrentItem::Uninitalized, is_dead_end: false }
        }
    }
}

/// True when no entry after `i` has the same name, which makes entry `i`
/// the one its name resolves to.
fn is_winner_scan(objects: &Vec<(String, Object)>, i: usize) -> (r: bool)
    requires
        i < objects@.len(),
    ensures
        r == is_winner(objects@, i as int),
{
    proof {
        lemma_lookup_last(objects@, objects@[i as int].0@);
    }
    let n = objects.len();
    let mut j = i + 1;
    while j < n
        invariant
            i < j <= n,
            n == objects@.len(),
            forall|k: int|
                i < k < j ==> (#[trigger] objects@[k]).0@ != objects@[i as int].0@,
        decreases n - j,
    {
        if objects[j].0 == objects[i].0 {
            proof {
                lemma_lookup_last(objects@, objects@[i as int].0@);
                if is_winner(objects@, i as int) {
                    assert(objects@[j as int].0@ != objects@[i as int].0@);
                }
            }
            return false;
        }
        j = j + 1;
    }
    proof {
        let name = objects@[i as int].0@;
        let r = spec_lookup(objects@, name);
        if r is None {
            assert(objects@[i as int].0@ != name);
        } else {
            let k = r->0;
            if k < i as int {
                assert(objects@[i as int].0@ != name);
            }
            if k > i as int {
                assert(objects@[k].0@ != name);
            }
        }
    }
    true
}

/// Append `idx` to the bucket of `tag`, opening one if needed.
fn tag_insert(tags: &mut Vec<(String, Vec<usize>)>, tag: &String, idx: usize)
    ensures
        buckets_view(final(tags)@) == spec_tag_insert(buckets_view(old(tags)@), tag@, idx),
{
    let n = tags.len();
    proof {
        assert(buckets_view(tags@.take(0)) =~= Seq::<(Seq<char>, Seq<usize>)>::empty());
        assert(tags@.skip(0) =~= tags@);
        assert(buckets_view(tags@.take(0)) + spec_tag_insert(
            buckets_view(tags@.skip(0)),
            tag@,
            idx,
        ) =~= spec_tag_insert(buckets_view(tags@), tag@, idx));
    }
    for p in 0..n
        invariant
            n == tags@.len(),
            tags@ == old(tags)@,
            spec_tag_insert(buckets_view(tags@), tag@, idx) == buckets_view(
                tags@.take(p as int),
            ) + spec_tag_insert(buckets_view(tags@.skip(p as int)), tag@, idx),
            forall|k: int| 0 <= k < p ==> (#[trigger] tags@[k]).0@ != tag@,
    {
        proof {
            let rest = buckets_view(tags@.skip(p as int));
            assert(rest.first() == (tags@[p as int].0@, tags@[p as int].1@));
            assert(rest.drop_first() =~= buckets_view(tags@.skip(p + 1)));
        }
        if tags[p].0 == *tag {
            let mut entry = tags.remove(p);
            entry.1.push(idx);
            tags.insert(p, entry);
            proof {
                lemma_tag_insert_found(old(tags)@, tag@, idx, p as int, final(tags)@);
            }
            return ;
        }
        proof {
            assert(buckets_view(tags@.take(p + 1)) =~= buckets_view(tags@.take(p as int)).push(
                (tags@[p as int].0@, tags@[p as int].1@),
            ));
            assert(buckets_view(tags@.take(p as int)) + spec_tag_insert(
                buckets_view(tags@.skip(p as int)),
                tag@,
                idx,
            ) =~= buckets_view(tags@.take(p + 1)) + spec_tag_insert(
                buckets_view(tags@.skip(p + 1)),
                tag@,
                idx,
            ));
        }
    }
    tags.push((tag.clone(), vec_of_one(idx)));
    proof {
        lemma_tag_insert_missing(old(tags)@, tag@, idx, final(tags)@);
    }
}

/// A one-element vector.
fn vec_of_one(idx: usize) -> (v: Vec<usize>)
    ensures
        v@ == seq![idx],
{
    let mut v: Vec<usize> = Vec::new();
    v.push(idx);
    proof {
        assert(v@ =~= seq![idx]);
    }
    v
}

/// The bucket update done in place equals the spec insert when the hit
/// bucket is the first with the tag.
proof fn lemma_tag_insert_found(
    tags: Seq<(String, Vec<usize>)>,
    tag: Seq<char>,
    idx: usize,
    p: int,
    updated: Seq<(String, Vec<usize>)>,
)
    requires
        0 <= p < tags.len(),
        tags[p].0@ == tag,
        forall|k: int| 0 <= k < p ==> (#[trigger] tags[k]).0@ != tag,
        updated.len() == tags.len(),
        updated[p].0 == tags[p].0,
        updated[p].1@ == tags[p].1@.push(idx),
        forall|k: int| 0 <= k < tags.len() && k != p ==> #[trigger] updated[k] == tags[k],
    ensures
        buckets_view(updated) == spec_tag_insert(buckets_view(tags), tag, idx),
    decreases p,
{
    if p == 0 {
        assert(buckets_view(tags).first() == (tags[0].0@, tags[0].1@));
        assert(spec_tag_insert(buckets_view(tags), tag, idx) == seq![
            (tags[0].0@, tags[0].1@.push(idx)),
        ] + buckets_view(tags).drop_first());
        assert(buckets_view(tags).drop_first() =~= buckets_view(tags.drop_first()));
        assert(buckets_view(updated) =~= seq![(tags[0].0@, tags[0].1@.push(idx))] + buckets_view(
            tags.drop_first(),
        ));
    } else {
        assert(buckets_view(tags).first() == (tags[0].0@, tags[0].1@));
        assert(buckets_view(tags).drop_first() =~= buckets_view(tags.drop_first()));
        lemma_tag_insert_found(tags.drop_first(), tag, idx, p - 1, updated.drop_first());
        assert(buckets_view(updated) =~= seq![(updated[0].0@, updated[0].1@)] + buckets_view(
            updated.drop_first(),
        ));
    }
}

/// Pushing a fresh bucket equals the spec insert when no bucket has the
/// tag.
proof fn lemma_tag_insert_missing(
    tags: Seq<(String, Vec<usize>)>,
    tag: Seq<char>,
    idx: usize,
    updated: Seq<(String, Vec<usize>)>,
)
    requires
        forall|k: int| 0 <= k < tags.len() ==> (#[trigger] tags[k]).0@ != tag,
        updated.len() == tags.len() + 1,
        updated.last().0@ == tag,
        updated.last().1@ == seq![idx],
        forall|k: int| 0 <= k < tags.len() ==> #[trigger] updated[k] == tags[k],
    ensures
        buckets_view(updated) == spec_tag_insert(buckets_view(tags), tag, idx),
    decreases tags.len(),
{
    if tags.len() == 0 {
        assert(buckets_view(updated) =~= seq![(tag, seq![idx])]);
        assert(buckets_view(tags) =~= Seq::<(Seq<char>, Seq<usize>)>::empty());
    } else {
        assert(buckets_view(tags).first() == (tags[0].0@, tags[0].1@));
        assert(buckets_view(tags).drop_first() =~= buckets_view(tags.drop_first()));
        lemma_tag_insert_missing(tags.drop_first(), tag, idx, updated.drop_first());
        assert(buckets_view(updated) =~= seq![(updated[0].0@, updated[0].1@)] + buckets_view(
            updated.drop_first(),
        ));
    }
}

/// A lookup result with its index widened for specification use.
pub open spec fn opt_index(r: Option<usize>) -> Option<int> {
    match r {
        None => None,
        Some(i) => Some(i as int),
    }
}

/// What a resolution may return for a query, over the registry alone:
/// the randomized choices are existential, everything else is pinned.
pub open spec fn pick_valid(ctx: ImageContext, q: Query, p: Option<int>) -> bool {
    match q {
        Query::ByName { by_name, pick_mode: _ } => p == spec_lookup(ctx.objects@, by_name@),
        Query::OneOfNames { one_of_names, pick_mode: _ } => {
            if one_of_names@.len() == 0 {
                p == None::<int>
            } else {
                exists|i: int|
                    0 <= i < one_of_names@.len() && p == spec_lookup(
                        ctx.objects@,
                        (#[trigger] one_of_names@[i])@,
                    )
            }
        },
        Query::ByTag { by_tag, pick_mode: _ } => {
            if by_tag@.len() == 0 {
                p == None::<int>
            } else {
                exists|i: int|
                    0 <= i < by_tag@.len() && {
                        let bucket = ctx.spec_tag_bucket((#[trigger] by_tag@[i])@);
                        if bucket.len() == 0 {
                            p == None::<int>
                        } else {
                            exists|j: int| 0 <= j < bucket.len() && p == Some(bucket[j] as int)
                        }
                    }
            }
        },
    }
}

/// Picks a resolver may make over a whole container pass: each one
/// valid, and under choose-once all equal to the first.
pub open spec fn valid_picks(ctx: ImageContext, q: Query, picks: Seq<Option<int>>) -> bool {
    &&& forall|k: int| 0 <= k < picks.len() ==> pick_valid(ctx, q, #[trigger] picks[k])
    &&& q.spec_choose() == Choose::Once ==> forall|k: int|
        0 <= k < picks.len() ==> #[trigger] picks[k] == picks[0]
}

/// Choose-once constancy: under choose-once, every pick of one resolver
/// pass equals the first, so every cell or segment that resolves at all
/// resolves to the same object.
pub proof fn lemma_once_picks_constant(
    ctx: ImageContext,
    q: Query,
    picks: Seq<Option<int>>,
    k1: int,
    k2: int,
)
    requires
        valid_picks(ctx, q, picks),
        q.spec_choose() == Choose::Once,
        0 <= k1 < picks.len(),
        0 <= k2 < picks.len(),
    ensures
        picks[k1] == picks[k2],
{
}

/// The cached outcome of a choose-once resolver.
#[derive(Clone, Copy, PartialEq, Eq, Structural, Debug)]
pub enum CurrentItem {
    /// No resolution has happened yet.
    Uninitalized,
    /// The first resolution found the object at this index.
    Found(usize),
    /// The first resolution found nothing.
    Nothing,
}

/// The cache state that a fresh resolution result leaves behind.
pub open spec fn cache_of(r: Option<usize>) -> CurrentItem {
    match r {
        None => CurrentItem::Nothing,
        Some(i) => CurrentItem::Found(i),
    }
}

/// One resolver instance: bound to a query, caching under choose-once,
/// inert when created past the depth budget.
pub struct QueryResult<'a> {
    /// The query this resolver answers.
    pub query: &'a Query,
    /// The cached first outcome, used under choose-once.
    pub current_item: CurrentItem,
    /// True when the depth budget was spent at creation: every call
    /// resolves to nothing.
    pub is_dead_end: bool,
}

impl<'a> QueryResult<'a> {
    /// A cached outcome, if any, is a valid pick for the query.
    pub open spec fn cache_valid(self, ctx: ImageContext) -> bool {
        match self.current_item {
            CurrentItem::Uninitalized => true,
            CurrentItem::Found(i) => pick_valid(ctx, *self.query, Some(i as int)) && i
                < ctx.objects@.len(),
            CurrentItem::Nothing => pick_valid(ctx, *self.query, None::<int>),
        }
    }

    /// One randomized resolution, ignoring the cache: a name lookup, or
    /// a random name then a lookup, or a random tag then a random member
    /// of its bucket.
    pub fn query_next<R: RandomSource>(&self, ctx: &ImageContext, rng: &mut R) -> (r: Option<
        usize,
    >)
        requires
            ctx.wf(),
        ensures
            pick_valid(*ctx, *self.query, opt_index(r)),
            r is Some ==> r->0 < ctx.objects@.len(),
    {
        match self.query {
            Query::ByName { by_name, pick_mode: _ } => ctx.lookup_by_name(by_name),
            Query::OneOfNames { one_of_names, pick_mode: _ } => {
                if one_of_names.len() == 0 {
                    None
                } else {
                    let i = rng.pick(one_of_names.len());
                    let r = ctx.lookup_by_name(&one_of_names[i]);
                    proof {
                        let iv = i as int;
                        assert(0 <= iv < one_of_names@.len() && opt_index(r) == spec_lookup(
                            ctx.objects@,
                            one_of_names@[iv]@,
                        ));
                    }
                    r
                }
            },
            Query::ByTag { by_tag, pick_mode: _ } => {
                if by_tag.len() == 0 {
                    None
                } else {
                    let i = rng.pick(by_tag.len());
                    let bucket = ctx.lookup_by_tag(&by_tag[i]);
                    match bucket {
                        None => {
                            proof {
                                let iv = i as int;
                                assert(0 <= iv < by_tag@.len() && ctx.spec_tag_bucket(
                                    by_tag@[iv]@,
                                ).len() == 0);
                            }
                            None
                        },
                        Some(b) => {
                            if b.len() == 0 {
                                proof {
                                    let iv = i as int;
                                    assert(0 <= iv < by_tag@.len() && ctx.spec_tag_bucket(
                                        by_tag@[iv]@,
                                    ).len() == 0);
                                }
                                None
                            } else {
                                let j = rng.pick(b.len());
                                let idx = b[j];
                                proof {
                                    lemma_bucket_members_valid(
                                        ctx.objects@,
                                        buckets_view(ctx.tags@),
                                        by_tag@[i as int]@,
                                        j as int,
                                    );
                                    let iv = i as int;
                                    let jv = j as int;
                                    let bucket_spec = ctx.spec_tag_bucket(by_tag@[iv]@);
                                    assert(0 <= iv < by_tag@.len() && bucket_spec.len() != 0 && 0
                                        <= jv < bucket_spec.len() && Some(idx as int) == Some(
                                        bucket_spec[jv] as int,
                                    ));
                                }
                                Some(idx)
                            }
                        },
                    }
                }
            },
        }
    }

    /// Resolve once more: nothing past the depth budget; a fresh
    /// resolution under choose-every-time; under choose-once the first
    /// outcome is computed once and afterwards replayed from the cache.
    pub fn next<R: RandomSource>(&mut self, ctx: &ImageContext, rng: &mut R) -> (r: Option<usize>)
        requires
            ctx.wf(),
            old(self).cache_valid(*ctx),
        ensures
            final(self).query == old(self).query,
            final(self).is_dead_end == old(self).is_dead_end,
            final(self).cache_valid(*ctx),
            r is Some ==> r->0 < ctx.objects@.len(),
            old(self).is_dead_end ==> r == None::<usize> && final(self).current_item == old(self).current_item,
            !old(self).is_dead_end ==> pick_valid(*ctx, *old(self).query, opt_index(r)),
            !old(self).is_dead_end && old(self).query.spec_choose() == Choose::EveryTime ==> final(self).current_item == old(self).current_item,
            !old(self).is_dead_end && old(self).query.spec_choose() == Choose::Once ==> match old(self).current_item {
                CurrentItem::Uninitalized => final(self).current_item == cache_of(r),
                CurrentItem::Found(i) => r == Some(i) && final(self).current_item == old(self).current_item,
                CurrentItem::Nothing => r == None::<usize> && final(self).current_item == old(self).current_item,
            },
    {
        if self.is_dead_end {
            return None;
        }
        match self.query.get_choose() {
            Choose::Once => {
                match self.current_item {
                    CurrentItem::Uninitalized => {
                        let r = self.query_next(ctx, rng);
                        match r {
                            None => {
                                self.current_item = CurrentItem::Nothing;
                                None
                            },
                            Some(found) => {
                                self.current_item = CurrentItem::Found(found);
                                Some(found)
                            },
                        }
                    },
                    CurrentItem::Found(found) => Some(found),
                    CurrentItem::Nothing => None,
                }
            },
            Choose::EveryTime => self.query_next(ctx, rng),
        }
    }
}

/// Every index in a bucket of the derived tag index points at an entry
/// of the registry.
pub proof fn lemma_bucket_members_valid(
    objects: Seq<(String, Object)>,
    buckets: Seq<(Seq<char>, Seq<usize>)>,
    tag: Seq<char>,
    j: int,
)
    requires
        buckets == spec_build_tags(objects, objects.len() as int),
        0 <= j < spec_bucket(buckets, tag).len(),
    ensures
        spec_bucket(buckets, tag)[j] < objects.len(),
{
    lemma_build_tags_members(objects, objects.len() as int, tag, j);
}

/// Every index in a bucket of the index over the first `upto` entries is
/// below `upto`.
proof fn lemma_build_tags_members(
    objects: Seq<(String, Object)>,
    upto: int,
    tag: Seq<char>,
    j: int,
)
    requires
        0 <= j < spec_bucket(spec_build_tags(objects, upto), tag).len(),
    ensures
        spec_bucket(spec_build_tags(objects, upto), tag)[j] < upto,
    decreases upto,
{
    if upto <= 0 {
    } else {
        let prev = spec_build_tags(objects, upto - 1);
        if is_winner(objects, upto - 1) {
            lemma_add_tags_members(
                prev,
                objects[upto - 1].1.spec_tags(),
                (upto - 1) as usize,
                tag,
                j,
            );
            if !(spec_bucket(spec_build_tags(objects, upto), tag)[j] == (upto - 1) as usize) {
                lemma_build_tags_members(objects, upto - 1, tag, j);
            }
        } else {
            lemma_build_tags_members(objects, upto - 1, tag, j);
        }
    }
}

/// How one insert changes one bucket read: the inserted tag's bucket
/// gains the index at its end, every other bucket is unchanged.
proof fn lemma_insert_bucket(
    buckets: Seq<(Seq<char>, Seq<usize>)>,
    tag_ins: Seq<char>,
    idx: usize,
    tag: Seq<char>,
)
    ensures
        spec_bucket(spec_tag_insert(buckets, tag_ins, idx), tag) == if tag == tag_ins {
            spec_bucket(buckets, tag).push(idx)
        } else {
            spec_bucket(buckets, tag)
        },
    decreases buckets.len(),
{
    let result = spec_tag_insert(buckets, tag_ins, idx);
    if buckets.len() == 0 {
        assert(result == seq![(tag_ins, seq![idx])]);
        assert(result.first() == (tag_ins, seq![idx]));
        assert(result.drop_first() =~= Seq::<(Seq<char>, Seq<usize>)>::empty());
        if tag == tag_ins {
            assert(spec_bucket(result, tag) =~= spec_bucket(buckets, tag).push(idx));
        } else {
            assert(spec_bucket(result, tag) == spec_bucket(result.drop_first(), tag));
            assert(spec_bucket(result.drop_first(), tag) =~= spec_bucket(buckets, tag));
        }
    } else if buckets.first().0 == tag_ins {
        assert(result == seq![(buckets.first().0, buckets.first().1.push(idx))]
            + buckets.drop_first());
        assert(result.first() == (buckets.first().0, buckets.first().1.push(idx)));
        assert(result.drop_first() =~= buckets.drop_first());
        if tag == tag_ins {
            assert(spec_bucket(result, tag) == buckets.first().1.push(idx));
            assert(spec_bucket(buckets, tag) == buckets.first().1);
        } else {
            assert(spec_bucket(result, tag) == spec_bucket(buckets.drop_first(), tag));
            assert(spec_bucket(buckets, tag) == spec_bucket(buckets.drop_first(), tag));
        }
    } else {
        assert(result == seq![buckets.first()] + spec_tag_insert(
            buckets.drop_first(),
            tag_ins,
            idx,
        ));
        assert(result.first() == buckets.first());
        assert(result.drop_first() =~= spec_tag_insert(buckets.drop_first(), tag_ins, idx));
        lemma_insert_bucket(buckets.drop_first(), tag_ins, idx, tag);
        if buckets.first().0 == tag {
            assert(spec_bucket(result, tag) == buckets.first().1);
            assert(spec_bucket(buckets, tag) == buckets.first().1);
        } else {
            assert(spec_bucket(result, tag) == spec_bucket(
                spec_tag_insert(buckets.drop_first(), tag_ins, idx),
                tag,
            ));
            assert(spec_bucket(buckets, tag) == spec_bucket(buckets.drop_first(), tag));
        }
    }
}

/// Adding an entry under its tags only appends: whatever a bucket held
/// before, it still holds at the same places.
proof fn lemma_add_tags_prefix(
    buckets: Seq<(Seq<char>, Seq<usize>)>,
    tags: Seq<String>,
    idx: usize,
    tag: Seq<char>,
)
    ensures
        spec_bucket(spec_add_tags(buckets, tags, idx), tag).len() >= spec_bucket(
            buckets,
            tag,
        ).len(),
        forall|k: int|
            0 <= k < spec_bucket(buckets, tag).len() ==> #[trigger] spec_bucket(
                spec_add_tags(buckets, tags, idx),
                tag,
            )[k] == spec_bucket(buckets, tag)[k],
    decreases tags.len(),
{
    if tags.len() > 0 {
        lemma_add_tags_prefix(buckets, tags.drop_last(), idx, tag);
        lemma_insert_bucket(
            spec_add_tags(buckets, tags.drop_last(), idx),
            tags.last()@,
            idx,
            tag,
        );
    }
}

/// Adding an entry under its tags brings nothing but that entry's index
/// into any bucket.
proof fn lemma_add_tags_members(
    buckets: Seq<(Seq<char>, Seq<usize>)>,
    tags: Seq<String>,
    idx: usize,
    tag: Seq<char>,
    j: int,
)
    requires
        0 <= j < spec_bucket(spec_add_tags(buckets, tags, idx), tag).len(),
    ensures
        spec_bucket(spec_add_tags(buckets, tags, idx), tag)[j] == idx || (j < spec_bucket(
            buckets,
            tag,
        ).len() && spec_bucket(spec_add_tags(buckets, tags, idx), tag)[j] == spec_bucket(
            buckets,
            tag,
        )[j]),
    decreases tags.len(),
{
    if tags.len() > 0 {
        let mid = spec_add_tags(buckets, tags.drop_last(), idx);
        lemma_insert_bucket(mid, tags.last()@, idx, tag);
        if j < spec_bucket(mid, tag).len() {
            lemma_add_tags_members(buckets, tags.drop_last(), idx, tag, j);
        }
    }
}

/// The entry's index lands in the bucket of each of its tags.
proof fn lemma_add_tags_contains(
    buckets: Seq<(Seq<char>, Seq<usize>)>,
    tags: Seq<String>,
    idx: usize,
    ti: int,
)
    requires
        0 <= ti < tags.len(),
    ensures
        spec_bucket(spec_add_tags(buckets, tags, idx), tags[ti]@).contains(idx),
    decreases tags.len(),
{
    let t = tags[ti]@;
    let mid = spec_add_tags(buckets, tags.drop_last(), idx);
    lemma_insert_bucket(mid, tags.last()@, idx, t);
    if ti == tags.len() - 1 && tags.last()@ == t {
        let after = spec_bucket(spec_add_tags(buckets, tags, idx), t);
        assert(after == spec_bucket(mid, t).push(idx));
        assert(after[after.len() - 1] == idx);
    } else {
        assert(tags.drop_last()[ti] == tags[ti]);
        lemma_add_tags_contains(buckets, tags.drop_last(), idx, ti);
        let k = choose|k: int|
            0 <= k < spec_bucket(mid, t).len() && spec_bucket(mid, t)[k] == idx;
        assert(spec_bucket(spec_add_tags(buckets, tags, idx), t)[k] == idx);
    }
}

/// A winner's index is in the bucket of each of its tags, over the index
/// derived from the first `upto` entries, for any `upto` past it.
proof fn lemma_build_tags_contains(objects: Seq<(String, Object)>, i: int, ti: int, upto: int)
    requires
        0 <= i < upto <= objects.len(),
        is_winner(objects, i),
        0 <= ti < objects[i].1.spec_tags().len(),
    ensures
        spec_bucket(spec_build_tags(objects, upto), objects[i].1.spec_tags()[ti]@).contains(
            i as usize,
        ),
    decreases upto,
{
    let t = objects[i].1.spec_tags()[ti]@;
    if upto == i + 1 {
        lemma_add_tags_contains(
            spec_build_tags(objects, i),
            objects[i].1.spec_tags(),
            i as usize,
            ti,
        );
    } else {
        lemma_build_tags_contains(objects, i, ti, upto - 1);
        let prev = spec_build_tags(objects, upto - 1);
        if is_winner(objects, upto - 1) {
            lemma_add_tags_prefix(prev, objects[upto - 1].1.spec_tags(), (upto - 1) as usize, t);
            let k = choose|k: int|
                0 <= k < spec_bucket(prev, t).len() && spec_bucket(prev, t)[k] == i as usize;
            assert(spec_bucket(spec_build_tags(objects, upto), t)[k] == i as usize);
        }
    }
}

/// Tag aggregation: an object is retrievable through any of its tags. A
/// tag query that names one of the tags of a winning entry admits that
/// entry as a resolution.
pub proof fn lemma_tag_aggregation(ctx: ImageContext, q: Query, i: int, qi: int, ti: int)
    requires
        ctx.wf(),
        0 <= i < ctx.objects@.len(),
        is_winner(ctx.objects@, i),
        q is ByTag,
        0 <= qi < q->by_tag@.len(),
        0 <= ti < ctx.objects@[i].1.spec_tags().len(),
        q->by_tag@[qi]@ == ctx.objects@[i].1.spec_tags()[ti]@,
    ensures
        pick_valid(ctx, q, Some(i)),
{
    let t = ctx.objects@[i].1.spec_tags()[ti]@;
    assert(ctx.objects@.len() == ctx.objects.len());
    lemma_build_tags_contains(ctx.objects@, i, ti, ctx.objects@.len() as int);
    let bucket = ctx.spec_tag_bucket(t);
    let j = choose|j: int| 0 <= j < bucket.len() && bucket[j] == i as usize;
    assert(0 <= qi < q->by_tag@.len() && {
        let b = ctx.spec_tag_bucket(q->by_tag@[qi]@);
        b.len() != 0 && 0 <= j < b.len() && Some(i) == Some(b[j] as int)
    });
}

} // verus!
