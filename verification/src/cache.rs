//! The cache of a component: one slot for each variant of the message type,
//! and the accessors that fill the slots and hand out the handlers.

use std::rc::Rc;
use vstd::prelude::*;
use crate::factory::{generate, plan_of, CachePlan, CachePlanView};
use crate::layout::SlotShape;
use crate::message::{
    field_values,
    fits_curried,
    fits_plain,
    lemma_message_holds_its_arguments,
    message_of,
    reconstruct,
    same_values,
    MessageValue,
    Value,
    ValueView,
};
use crate::partition::pick;
use crate::schema::{
    curried_count,
    curried_flags,
    plain_count,
    view_each,
    Schema,
    SchemaError,
    VariantSchema,
    VariantView,
};

verus! {

/// A handler: bound to a dispatcher, made for one variant and one key, and
/// able to rebuild the variant's message from what it is invoked with.
#[derive(Debug)]
pub struct Handler {
    dispatcher: u64,
    variant: usize,
    occupant: usize,
    recipe: Rc<VariantSchema>,
    captured: Rc<Vec<Value>>,
}

/// A [`Handler`] in contracts.
pub struct HandlerView {
    /// The dispatcher that the handler is bound to.
    pub dispatcher: u64,
    /// The position of the handler's variant among the variants.
    pub variant: nat,
    /// The position of the handler among the handlers of its variant, in the
    /// order in which they were made.
    pub occupant: nat,
    /// The variant whose messages the handler emits.
    pub recipe: VariantView,
    /// The values of the curried fields, which the handler captured.
    pub captured: Seq<ValueView>,
}

impl HandlerView {
    /// Whether two handlers are the same occupant of the same slot.
    pub open spec fn same(self, other: HandlerView) -> bool {
        &&& self.dispatcher == other.dispatcher
        &&& self.variant == other.variant
        &&& self.occupant == other.occupant
    }

    /// The handler captured a value for each curried field of its variant.
    pub open spec fn wf(self) -> bool {
        self.captured.len() == curried_count(self.recipe.fields)
    }
}

impl View for Handler {
    type V = HandlerView;

    closed spec fn view(&self) -> HandlerView {
        HandlerView {
            dispatcher: self.dispatcher,
            variant: self.variant as nat,
            occupant: self.occupant as nat,
            recipe: self.recipe@,
            captured: view_each(self.captured@),
        }
    }
}

impl Clone for Handler {
    /// A duplicate, which shares what the handler captured.
    fn clone(&self) -> (r: Handler)
        ensures
            r@ == self@,
    {
        proof {
            use_type_invariant(self);
        }
        Handler {
            dispatcher: self.dispatcher,
            variant: self.variant,
            occupant: self.occupant,
            recipe: self.recipe.clone(),
            captured: self.captured.clone(),
        }
    }
}

impl PartialEq for Handler {
    fn eq(&self, other: &Handler) -> (r: bool) {
        self.dispatcher == other.dispatcher && self.variant == other.variant && self.occupant
            == other.occupant
    }
}

impl vstd::std_specs::cmp::PartialEqSpecImpl for Handler {
    open spec fn obeys_eq_spec() -> bool {
        true
    }

    open spec fn eq_spec(&self, other: &Handler) -> bool {
        self@.same(other@)
    }
}

impl Handler {
    #[verifier::type_invariant]
    spec fn captured_fits(self) -> bool {
        self@.wf()
    }

    /// The position of the handler's variant among the variants.
    pub fn variant(&self) -> (r: usize)
        ensures
            r == self@.variant,
    {
        self.variant
    }

    /// The position of the handler among the handlers of its variant.
    pub fn occupant(&self) -> (r: usize)
        ensures
            r == self@.occupant,
    {
        self.occupant
    }

    /// Whether the handler can be invoked with these values: there is one
    /// for each field that is not curried.
    pub fn accepts(&self, supplied: &Vec<Value>) -> (r: bool)
        ensures
            r == (supplied@.len() == plain_count(self@.recipe.fields)),
    {
        fits_plain(&self.recipe, supplied)
    }

    /// The message that the handler emits when it is invoked with the values
    /// of the fields that are not curried.
    pub fn invoke(&self, supplied: &Vec<Value>) -> (m: MessageValue)
        requires
            supplied@.len() == plain_count(self@.recipe.fields),
        ensures
            self@.wf(),
            m@ == message_of(self@.recipe, self@.captured, view_each(supplied@)),
    {
        proof {
            use_type_invariant(self);
        }
        reconstruct(&self.recipe, &self.captured, supplied)
    }
}

/// The slot of one variant.
#[derive(Debug)]
pub enum CacheSlot {
    /// At most one handler.
    Single(Option<Handler>),
    /// One handler for each key that was asked for, in the order of the
    /// first requests. A handler holds its key: the values it captured.
    Keyed(Vec<Handler>),
}

/// The handlers of a slot, in the order in which they were made.
spec fn slot_handlers(slot: CacheSlot) -> Seq<HandlerView> {
    match slot {
        CacheSlot::Single(None) => Seq::empty(),
        CacheSlot::Single(Some(h)) => seq![h@],
        CacheSlot::Keyed(handlers) => view_each(handlers@),
    }
}

/// The keys that have a handler in a slot, in the order in which the
/// handlers were made.
spec fn slot_keys(slot: CacheSlot) -> Seq<Seq<ValueView>> {
    Seq::new(slot_handlers(slot).len(), |i: int| slot_handlers(slot)[i].captured)
}

/// The cache of one component.
#[derive(Debug)]
pub struct CallbackCache {
    dispatcher: u64,
    plan: CachePlan,
    slots: Vec<CacheSlot>,
}

/// What a cache holds: for each variant the keys that have a handler, in the
/// order in which the handlers were made.
pub struct CacheView {
    pub dispatcher: u64,
    pub plan: CachePlanView,
    pub keys: Seq<Seq<Seq<ValueView>>>,
}

impl CacheView {
    /// The plan is well formed, there is a slot for each variant, no key
    /// has two handlers, and a key has a value for each curried field.
    pub open spec fn wf(self) -> bool {
        &&& self.plan.wf()
        &&& self.keys.len() == self.plan.accessors.len()
        &&& forall|v: int| 0 <= v < self.keys.len() ==> (#[trigger] self.keys[v]).no_duplicates()
        &&& forall|v: int, i: int|
            0 <= v < self.keys.len() && 0 <= i < self.keys[v].len() ==> (
            #[trigger] self.keys[v][i]).len() == curried_count(
                self.plan.accessors[v].variant.fields,
            )
    }

    /// The handler of a variant that was made at a position.
    pub open spec fn handler_at(self, variant: int, occupant: int) -> HandlerView {
        HandlerView {
            dispatcher: self.dispatcher,
            variant: variant as nat,
            occupant: occupant as nat,
            recipe: self.plan.accessors[variant].variant,
            captured: self.keys[variant][occupant],
        }
    }

    /// Whether a key can be given to the accessor of a variant.
    pub open spec fn admits(self, variant: int, key: Seq<ValueView>) -> bool {
        &&& 0 <= variant < self.keys.len()
        &&& key.len() == curried_count(self.plan.accessors[variant].variant.fields)
    }

    /// The cache after a handler was made for a key of a variant.
    pub open spec fn with_key(self, variant: int, key: Seq<ValueView>) -> CacheView {
        CacheView { keys: self.keys.update(variant, self.keys[variant].push(key)), ..self }
    }

    /// Whether this cache came from `earlier` by accesses: the same plan and
    /// dispatcher, and for each variant the keys of `earlier` first.
    pub open spec fn extends(self, earlier: CacheView) -> bool {
        &&& self.dispatcher == earlier.dispatcher
        &&& self.plan == earlier.plan
        &&& self.keys.len() == earlier.keys.len()
        &&& forall|v: int|
            0 <= v < self.keys.len() ==> earlier.keys[v].is_prefix_of(#[trigger] self.keys[v])
    }
}

/// What an access does to a cache, and the handler that it returns.
///
/// For a key that has a handler the cache stays as it is, and that handler
/// is returned. For any other key a handler is made, which takes the next
/// position in the slot.
pub open spec fn access(cache: CacheView, variant: int, key: Seq<ValueView>) -> (
    CacheView,
    HandlerView,
) {
    let known = cache.keys[variant];
    if known.contains(key) {
        (cache, cache.handler_at(variant, known.index_of(key)))
    } else {
        let grown = cache.with_key(variant, key);
        (grown, grown.handler_at(variant, known.len() as int))
    }
}

/// How many handlers an access makes: one for a key that has none, none for
/// a key that has one.
pub open spec fn made_by(cache: CacheView, variant: int, key: Seq<ValueView>) -> nat {
    if cache.keys[variant].contains(key) {
        0
    } else {
        1
    }
}

/// A cache without any handler.
pub open spec fn empty_cache(dispatcher: u64, plan: CachePlanView) -> CacheView {
    CacheView {
        dispatcher,
        plan,
        keys: Seq::new(plan.accessors.len(), |v: int| Seq::<Seq<ValueView>>::empty()),
    }
}

impl View for CallbackCache {
    type V = CacheView;

    closed spec fn view(&self) -> CacheView {
        CacheView {
            dispatcher: self.dispatcher,
            plan: self.plan@,
            keys: Seq::new(self.slots@.len(), |v: int| slot_keys(self.slots@[v])),
        }
    }
}

impl CallbackCache {
    /// The slots have the shapes of the plan, and each holds the handlers
    /// of its keys.
    pub closed spec fn wf(&self) -> bool {
        &&& self@.wf()
        &&& forall|v: int|
            0 <= v < self.slots@.len() ==> (#[trigger] self.slots@[v] is Single)
                == (self.plan@.accessors[v].shape is Single)
        &&& forall|v: int|
            0 <= v < self.slots@.len() ==> slot_handlers(#[trigger] self.slots@[v]).len()
                == self@.keys[v].len()
        &&& forall|v: int, i: int|
            0 <= v < self.slots@.len() && 0 <= i < self@.keys[v].len() ==> #[trigger] slot_handlers(
                self.slots@[v],
            )[i] == self@.handler_at(v, i)
    }

    /// A well-formed cache holds what a well-formed view says.
    pub proof fn lemma_wf(&self)
        requires
            self.wf(),
        ensures
            self@.wf(),
    {
    }

    /// A cache for a planned message type, bound to a dispatcher, with all
    /// its slots empty.
    pub fn from_plan(dispatcher: u64, plan: CachePlan) -> (r: CallbackCache)
        requires
            plan@.wf(),
        ensures
            r.wf(),
            r@ == empty_cache(dispatcher, plan@),
    {
        let mut slots: Vec<CacheSlot> = Vec::new();
        let mut v: usize = 0;
        while v < plan.accessors.len()
            invariant
                v <= plan.accessors.len(),
                slots@.len() == v,
                forall|w: int|
                    0 <= w < v ==> (#[trigger] slots@[w] is Single) == (
                    plan@.accessors[w].shape is Single),
                forall|w: int| 0 <= w < v ==> slot_handlers(#[trigger] slots@[w]).len() == 0,
            decreases plan.accessors.len() - v,
        {
            let slot = match &plan.accessors[v].shape {
                SlotShape::Single { .. } => CacheSlot::Single(None),
                SlotShape::Keyed { .. } => CacheSlot::Keyed(Vec::new()),
            };
            slots.push(slot);
            v += 1;
        }
        let r = CallbackCache { dispatcher, plan, slots };
        assert forall|w: int| 0 <= w < r@.keys.len() implies #[trigger] r@.keys[w]
            =~= Seq::<Seq<ValueView>>::empty() by {}
        assert(r@.keys =~= empty_cache(dispatcher, r.plan@).keys);
        r
    }

    /// A cache for a message type, bound to a dispatcher, with all its slots
    /// empty. There is none where the message type has no plan.
    pub fn new(dispatcher: u64, schema: &Schema) -> (r: Result<CallbackCache, SchemaError>)
        ensures
            match plan_of(schema@) {
                Ok(plan) => r is Ok && r->Ok_0.wf() && r->Ok_0@ == empty_cache(dispatcher, plan),
                Err(e) => r is Err && r->Err_0 == e,
            },
    {
        match generate(schema) {
            Ok(plan) => Ok(CallbackCache::from_plan(dispatcher, plan)),
            Err(e) => Err(e),
        }
    }

    /// A duplicate of the handler of a key of a variant, if the key has a
    /// handler.
    fn find(&self, variant: usize, key: &Vec<Value>) -> (r: Option<Handler>)
        requires
            self.wf(),
            self@.admits(variant as int, view_each(key@)),
        ensures
            match r {
                Some(h) => exists|i: int|
                    0 <= i < self@.keys[variant as int].len() && self@.keys[variant as int][i]
                        == view_each(key@) && h@ == self@.handler_at(variant as int, i),
                None => !self@.keys[variant as int].contains(view_each(key@)),
            },
    {
        let ghost keys = self@.keys[variant as int];
        let ghost known = slot_handlers(self.slots@[variant as int]);
        match &self.slots[variant] {
            CacheSlot::Single(None) => None,
            CacheSlot::Single(Some(h)) => {
                assert(known[0] == h@);
                Some(h.clone())
            },
            CacheSlot::Keyed(handlers) => {
                let mut i: usize = 0;
                while i < handlers.len()
                    invariant
                        i <= handlers.len(),
                        variant < self@.keys.len(),
                        keys == self@.keys[variant as int],
                        known == view_each(handlers@),
                        known.len() == keys.len(),
                        forall|j: int|
                            0 <= j < keys.len() ==> #[trigger] known[j] == self@.handler_at(
                                variant as int,
                                j,
                            ),
                        forall|j: int| 0 <= j < i ==> #[trigger] keys[j] != view_each(key@),
                    decreases handlers.len() - i,
                {
                    assert(known[i as int] == handlers@[i as int]@);
                    if same_values(&handlers[i].captured, key) {
                        return Some(handlers[i].clone());
                    }
                    i += 1;
                }
                None
            },
        }
    }

    /// Makes the handler of a key that has none, and puts it into the slot.
    fn install(&mut self, variant: usize, key: Vec<Value>) -> (h: Handler)
        requires
            old(self).wf(),
            old(self)@.admits(variant as int, view_each(key@)),
            !old(self)@.keys[variant as int].contains(view_each(key@)),
        ensures
            final(self).wf(),
            final(self)@ == old(self)@.with_key(variant as int, view_each(key@)),
            h@ == final(self)@.handler_at(
                variant as int,
                old(self)@.keys[variant as int].len() as int,
            ),
    {
        let ghost before = *self;
        let ghost k = view_each(key@);
        let ghost v = variant as int;
        let recipe = self.plan.accessors[variant].variant.clone();
        let captured = Rc::new(key);
        let dispatcher = self.dispatcher;
        proof {
            if self.slots@[v] matches CacheSlot::Single(Some(_)) {
                assert(self@.keys[v][0] =~= k);
            }
        }
        let h = match &mut self.slots[variant] {
            CacheSlot::Single(slot) => {
                let h = Handler { dispatcher, variant, occupant: 0, recipe, captured };
                *slot = Some(h.clone());
                h
            },
            CacheSlot::Keyed(handlers) => {
                let h = Handler { dispatcher, variant, occupant: handlers.len(), recipe, captured };
                handlers.push(h.clone());
                h
            },
        };
        proof {
            assert(slot_keys(self.slots@[v]) =~= slot_keys(before.slots@[v]).push(k));
            assert(self@.keys =~= before@.keys.update(v, before@.keys[v].push(k)));
        }
        h
    }

    /// The handler of a variant for a key: the values of the variant's
    /// curried fields, in the order of the fields.
    ///
    /// The first access with a key makes the handler and keeps it in the
    /// variant's slot; every access returns a duplicate of the handler that
    /// is kept.
    pub fn accessor(&mut self, variant: usize, key: Vec<Value>) -> (h: Handler)
        requires
            old(self).wf(),
            old(self)@.admits(variant as int, view_each(key@)),
        ensures
            final(self).wf(),
            (final(self)@, h@) == access(old(self)@, variant as int, view_each(key@)),
            h@.wf(),
    {
        match self.find(variant, &key) {
            Some(h) => h,
            None => self.install(variant, key),
        }
    }

    /// Whether a key can be given to the accessor of a variant: the variant
    /// exists, and the key has a value for each of its curried fields.
    pub fn admits(&self, variant: usize, key: &Vec<Value>) -> (r: bool)
        requires
            self.wf(),
        ensures
            r == self@.admits(variant as int, view_each(key@)),
    {
        variant < self.plan.accessors.len() && fits_curried(
            &self.plan.accessors[variant].variant,
            key,
        )
    }

    /// The position of the first variant whose accessor has a name.
    pub fn position(&self, accessor: &str) -> (r: Option<usize>)
        ensures
            match r {
                Some(v) => self@.plan.first_named(accessor@, v as int),
                None => forall|v: int| !self@.plan.first_named(accessor@, v),
            },
    {
        let wanted = accessor.to_owned();
        let mut v: usize = 0;
        while v < self.plan.accessors.len()
            invariant
                v <= self.plan.accessors.len(),
                wanted@ == accessor@,
                forall|w: int|
                    0 <= w < v ==> (#[trigger] self@.plan.accessors[w]).accessor != accessor@,
            decreases self.plan.accessors.len() - v,
        {
            if self.plan.accessors[v].accessor == wanted {
                return Some(v);
            }
            v += 1;
        }
        None
    }

    /// The handler for a key of the first variant whose accessor has a name.
    /// Where no accessor has the name, or the one that has it does not admit
    /// the key, there is none, and the cache stays as it is.
    pub fn get(&mut self, accessor: &str, key: Vec<Value>) -> (r: Option<Handler>)
        requires
            old(self).wf(),
        ensures
            final(self).wf(),
            match r {
                Some(h) => exists|v: int|
                    {
                        &&& old(self)@.plan.first_named(accessor@, v)
                        &&& old(self)@.admits(v, view_each(key@))
                        &&& (final(self)@, h@) == access(old(self)@, v, view_each(key@))
                    },
                None => final(self)@ == old(self)@ && forall|v: int|
                    old(self)@.plan.first_named(accessor@, v) ==> !old(self)@.admits(
                        v,
                        view_each(key@),
                    ),
            },
    {
        match self.position(accessor) {
            Some(v) => {
                if self.admits(v, &key) {
                    Some(self.accessor(v, key))
                } else {
                    None
                }
            },
            None => None,
        }
    }

    /// How many handlers were made for a variant.
    pub fn constructed(&self, variant: usize) -> (r: usize)
        requires
            self.wf(),
            variant < self@.keys.len(),
        ensures
            r == self@.keys[variant as int].len(),
    {
        match &self.slots[variant] {
            CacheSlot::Single(None) => 0,
            CacheSlot::Single(Some(_)) => 1,
            CacheSlot::Keyed(handlers) => handlers.len(),
        }
    }

    /// The plan that the cache was made for.
    pub fn plan(&self) -> (r: &CachePlan)
        ensures
            r@ == self@.plan,
    {
        &self.plan
    }
}

/// An access leaves a well-formed cache well formed. The cache it leaves
/// came from the one it found, holds a handler for the key, and differs
/// from it by at most that handler; the handler it returns captured the key.
pub proof fn lemma_access(cache: CacheView, variant: int, key: Seq<ValueView>)
    requires
        cache.wf(),
        cache.admits(variant, key),
    ensures
        access(cache, variant, key).0.wf(),
        access(cache, variant, key).0.extends(cache),
        access(cache, variant, key).0.keys[variant].contains(key),
        access(cache, variant, key).0.keys[variant].len() == cache.keys[variant].len() + made_by(
            cache,
            variant,
            key,
        ),
        forall|w: int|
            0 <= w < cache.keys.len() && w != variant ==> access(cache, variant, key).0.keys[w]
                == cache.keys[w],
        access(cache, variant, key).1.wf(),
        access(cache, variant, key).1.captured == key,
        access(cache, variant, key).1.recipe == cache.plan.accessors[variant].variant,
{
    let known = cache.keys[variant];
    let after = access(cache, variant, key).0;
    if known.contains(key) {
        assert(known[known.index_of(key)] == key);
    } else {
        assert(after.keys[variant] == known.push(key));
        assert forall|v: int| 0 <= v < after.keys.len() implies cache.keys[v].is_prefix_of(
            #[trigger] after.keys[v],
        ) by {}
        assert forall|v: int| 0 <= v < after.keys.len() implies (
        #[trigger] after.keys[v]).no_duplicates() by {}
        assert forall|v: int, i: int|
            0 <= v < after.keys.len() && 0 <= i < after.keys[v].len() implies (
            #[trigger] after.keys[v][i]).len() == curried_count(
            after.plan.accessors[v].variant.fields,
        ) by {}
    }
}

/// Once a key of a variant has been given to the accessor, every later
/// access with an equal key returns the handler of the first, and makes
/// none: the cache stays as the access found it.
pub proof fn lemma_equal_keys_equal_handlers(
    cache: CacheView,
    later: CacheView,
    variant: int,
    key: Seq<ValueView>,
)
    requires
        cache.wf(),
        cache.admits(variant, key),
        later.wf(),
        later.extends(access(cache, variant, key).0),
    ensures
        access(later, variant, key).1 == access(cache, variant, key).1,
        access(later, variant, key).1.same(access(cache, variant, key).1),
        access(later, variant, key).0 == later,
{
    lemma_access(cache, variant, key);
    let first = access(cache, variant, key).0;
    let i = first.keys[variant].index_of(key);
    assert(first.keys[variant].is_prefix_of(later.keys[variant]));
    assert(later.keys[variant][i] == key);
}

/// Accesses of one variant with unequal keys return unequal handlers,
/// whatever happened between them.
pub proof fn lemma_unequal_keys_unequal_handlers(
    cache: CacheView,
    later: CacheView,
    variant: int,
    key: Seq<ValueView>,
    other: Seq<ValueView>,
)
    requires
        cache.wf(),
        cache.admits(variant, key),
        later.wf(),
        later.extends(access(cache, variant, key).0),
        later.admits(variant, other),
        key != other,
    ensures
        !access(later, variant, other).1.same(access(cache, variant, key).1),
{
    lemma_access(cache, variant, key);
    lemma_access(later, variant, other);
    let first = access(cache, variant, key);
    let second = access(later, variant, other);
    let i = first.0.keys[variant].index_of(key);
    assert(first.0.keys[variant].is_prefix_of(later.keys[variant]));
    assert(second.0.keys[variant][i] == key);
    assert(second.0.keys[variant][second.1.occupant as int] == other);
}

/// The accessor of a variant without curried fields has one handler: any
/// two accesses return equal handlers, and only the first makes one.
pub proof fn lemma_plain_variant_one_handler(
    cache: CacheView,
    later: CacheView,
    variant: int,
    key: Seq<ValueView>,
    other: Seq<ValueView>,
)
    requires
        cache.wf(),
        cache.admits(variant, key),
        later.wf(),
        later.extends(access(cache, variant, key).0),
        later.admits(variant, other),
        curried_count(cache.plan.accessors[variant].variant.fields) == 0,
    ensures
        access(later, variant, other).1.same(access(cache, variant, key).1),
        access(later, variant, other).0 == later,
        later.keys[variant].len() == 1,
{
    assert(key =~= other);
    lemma_access(cache, variant, key);
    lemma_equal_keys_equal_handlers(cache, later, variant, key);
    if later.keys[variant].len() > 1 {
        assert(later.keys[variant][0] =~= later.keys[variant][1]);
    }
}

/// Two accesses in succession with one key return equal handlers. The
/// second makes no handler, and the two together make one if the key had
/// none before, and none if it had one.
pub proof fn lemma_same_key_twice(cache: CacheView, variant: int, key: Seq<ValueView>)
    requires
        cache.wf(),
        cache.admits(variant, key),
    ensures
        ({
            let (first, h1) = access(cache, variant, key);
            let (second, h2) = access(first, variant, key);
            &&& h2.same(h1)
            &&& second == first
            &&& second.keys[variant].len() == cache.keys[variant].len() + made_by(
                cache,
                variant,
                key,
            )
        }),
{
    lemma_access(cache, variant, key);
    lemma_equal_keys_equal_handlers(cache, access(cache, variant, key).0, variant, key);
}

/// Two accesses in succession with unequal keys return unequal handlers.
pub proof fn lemma_two_keys_in_succession(
    cache: CacheView,
    variant: int,
    key: Seq<ValueView>,
    other: Seq<ValueView>,
)
    requires
        cache.wf(),
        cache.admits(variant, key),
        cache.admits(variant, other),
        key != other,
    ensures
        ({
            let (first, h1) = access(cache, variant, key);
            let (second, h2) = access(first, variant, other);
            !h2.same(h1)
        }),
{
    lemma_access(cache, variant, key);
    lemma_unequal_keys_unequal_handlers(
        cache,
        access(cache, variant, key).0,
        variant,
        key,
        other,
    );
}

/// Two accesses in succession of a variant without curried fields return
/// equal handlers.
pub proof fn lemma_plain_variant_twice(
    cache: CacheView,
    variant: int,
    key: Seq<ValueView>,
    other: Seq<ValueView>,
)
    requires
        cache.wf(),
        cache.admits(variant, key),
        cache.admits(variant, other),
        curried_count(cache.plan.accessors[variant].variant.fields) == 0,
    ensures
        ({
            let (first, h1) = access(cache, variant, key);
            let (second, h2) = access(first, variant, other);
            h2.same(h1) && second == first
        }),
{
    lemma_access(cache, variant, key);
    lemma_plain_variant_one_handler(cache, access(cache, variant, key).0, variant, key, other);
}

/// Invoked with a value for each field that is not curried, the handler
/// that an access returns emits the message of its variant in which the
/// curried fields hold the key of the access and the others what the
/// handler was invoked with, each at the position of its field.
pub proof fn lemma_handler_rebuilds_the_message(
    cache: CacheView,
    variant: int,
    key: Seq<ValueView>,
    supplied: Seq<ValueView>,
)
    requires
        cache.wf(),
        cache.admits(variant, key),
        supplied.len() == plain_count(cache.plan.accessors[variant].variant.fields),
    ensures
        ({
            let handler = access(cache, variant, key).1;
            let declared = cache.plan.accessors[variant].variant;
            let message = message_of(handler.recipe, handler.captured, supplied);
            &&& message == message_of(declared, key, supplied)
            &&& message.variant == declared.name
            &&& message.layout == declared.layout
            &&& pick(curried_flags(declared.fields), field_values(message), true) == key
            &&& pick(curried_flags(declared.fields), field_values(message), false) == supplied
        }),
{
    lemma_access(cache, variant, key);
    lemma_message_holds_its_arguments(cache.plan.accessors[variant].variant, key, supplied);
}

} // verus!
