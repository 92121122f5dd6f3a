//! Completion requests: what is asked of each provider, and how a provider's
//! reply becomes the items shown to the user.
use vstd::prelude::*;
use crate::diagnostic::LanguageServerId;
use crate::trigger::{find_trigger, is_first_trigger, no_trigger, DocumentId, Provider, Trigger, TriggerKind, ViewId};
use crate::text::{compare_text, lemma_text_cmp_antisymmetric, lemma_text_cmp_zero, text_cmp};

verus! {

/// The part of a language server's completion item that this crate reads.
#[derive(Debug, Clone)]
pub struct LspCompletionItem {
    pub label: String,
    pub sort_text: Option<String>,
    pub filter_text: Option<String>,
}

/// The text items are ordered by: the sort text, else the label.
pub open spec fn sort_key(item: LspCompletionItem) -> Seq<char> {
    match item.sort_text {
        Some(t) => t@,
        None => item.label@,
    }
}

impl LspCompletionItem {
    pub fn sort_text(&self) -> (r: &str)
        ensures
            r@ == sort_key(*self),
    {
        match &self.sort_text {
            Some(t) => t.as_str(),
            None => self.label.as_str(),
        }
    }
}

/// Neighbouring items are in ascending order of their sort keys.
pub open spec fn sorted_by_key(s: Seq<LspCompletionItem>) -> bool {
    forall|k: int| 0 <= k < s.len() - 1 ==> text_cmp(sort_key(#[trigger] s[k]), sort_key(s[k + 1])) <= 0
}

/// `output` holds the items of `input`, `output[k]` being `input[idx[k]]`,
/// and neighbours with equal keys keep their order in `input`.
pub open spec fn stable_arrangement(
    input: Seq<LspCompletionItem>,
    output: Seq<LspCompletionItem>,
    idx: Seq<int>,
) -> bool {
    &&& idx.len() == output.len() == input.len()
    &&& forall|k: int| 0 <= k < idx.len() ==> 0 <= #[trigger] idx[k] < input.len() && output[k] == input[idx[k]]
    &&& forall|k: int, l: int| 0 <= k < idx.len() && 0 <= l < idx.len() && k != l ==> #[trigger] idx[k] != #[trigger] idx[l]
    &&& forall|k: int|
        0 <= k < idx.len() - 1 && sort_key(#[trigger] output[k]) == sort_key(output[k + 1]) ==> idx[k] < idx[k + 1]
}

/// `output` is `input` sorted by key, items with equal keys in the order
/// they came in.
pub open spec fn is_stable_sort(input: Seq<LspCompletionItem>, output: Seq<LspCompletionItem>) -> bool {
    sorted_by_key(output) && exists|idx: Seq<int>| stable_arrangement(input, output, idx)
}

/// Sorts items by sort text (falling back to the label), ascending, keeping
/// the order of items with equal keys.
pub fn sort_items(items: Vec<LspCompletionItem>) -> (r: Vec<LspCompletionItem>)
    ensures
        is_stable_sort(items@, r@),
{
    let ghost orig = items@;
    let mut rest = items;
    let mut out: Vec<LspCompletionItem> = Vec::new();
    let ghost mut idx: Seq<int> = Seq::empty();
    let n = rest.len();
    let mut i: usize = 0;
    while i < n
        invariant
            n == orig.len(),
            i <= n,
            rest@ == orig.skip(i as int),
            sorted_by_key(out@),
            stable_arrangement(orig.take(i as int), out@, idx),
        decreases n - i,
    {
        let x = rest.remove(0);
        assert(x == orig[i as int]);
        let mut p: usize = 0;
        while p < out.len() && compare_text(out[p].sort_text(), x.sort_text()) <= 0
            invariant
                p <= out@.len(),
                forall|m: int| 0 <= m < p ==> text_cmp(sort_key(#[trigger] out@[m]), sort_key(x)) <= 0,
            decreases out@.len() - p,
        {
            p = p + 1;
        }
        let ghost old_out = out@;
        let ghost old_idx = idx;
        out.insert(p, x);
        proof {
            idx = old_idx.insert(p as int, i as int);
            let input = orig.take(i + 1);
            assert(orig.take(i as int) =~= input.take(i as int));
            assert(input[i as int] == x);
            if p < old_out.len() {
                lemma_text_cmp_antisymmetric(sort_key(old_out[p as int]), sort_key(x));
                lemma_text_cmp_zero(sort_key(x), sort_key(old_out[p as int]));
            }
            assert forall|k: int| 0 <= k < out@.len() - 1 implies text_cmp(
                sort_key(#[trigger] out@[k]),
                sort_key(out@[k + 1]),
            ) <= 0 by {
                if k < p - 1 {
                    assert(out@[k] == old_out[k] && out@[k + 1] == old_out[k + 1]);
                } else if k == p - 1 {
                    assert(out@[k] == old_out[k] && out@[k + 1] == x);
                } else if k == p {
                    assert(out@[k] == x && out@[k + 1] == old_out[k]);
                } else {
                    assert(out@[k] == old_out[k - 1] && out@[k + 1] == old_out[k]);
                }
            }
            assert forall|k: int| 0 <= k < idx.len() implies 0 <= #[trigger] idx[k] < input.len()
                && out@[k] == input[idx[k]] by {
                if k < p {
                    assert(idx[k] == old_idx[k]);
                } else if k > p {
                    assert(idx[k] == old_idx[k - 1]);
                }
            }
            assert forall|k: int, l: int| 0 <= k < idx.len() && 0 <= l < idx.len() && k != l implies #[trigger] idx[k]
                != #[trigger] idx[l] by {
                if k != p && l != p {
                    let k0 = if k < p { k } else { k - 1 };
                    let l0 = if l < p { l } else { l - 1 };
                    assert(old_idx[k0] != old_idx[l0]);
                } else if k == p {
                    let l0 = if l < p { l } else { l - 1 };
                    assert(old_idx[l0] < i);
                } else {
                    let k0 = if k < p { k } else { k - 1 };
                    assert(old_idx[k0] < i);
                }
            }
            assert forall|k: int|
                0 <= k < idx.len() - 1 && sort_key(#[trigger] out@[k]) == sort_key(out@[k + 1]) implies idx[k]
                < idx[k + 1] by {
                if k < p - 1 {
                    assert(out@[k] == old_out[k] && out@[k + 1] == old_out[k + 1]);
                } else if k == p - 1 {
                    assert(old_idx[k] < i);
                } else if k == p {
                    assert(out@[k] == x && out@[k + 1] == old_out[k]);
                } else {
                    assert(out@[k] == old_out[k - 1] && out@[k + 1] == old_out[k]);
                }
            }
        }
        i = i + 1;
    }
    assert(orig.take(n as int) =~= orig);
    out
}

/// A completion item with the provider it came from.
#[derive(Debug, Clone)]
pub struct CompletionItem {
    pub item: LspCompletionItem,
    pub provider: LanguageServerId,
    pub resolved: bool,
    /// Lower is more important: the negated index of the provider.
    pub provider_priority: i8,
}

/// The text the popup filters an item by: the filter text, else the label.
pub open spec fn filter_key(item: LspCompletionItem) -> Seq<char> {
    match item.filter_text {
        Some(t) => t@,
        None => item.label@,
    }
}

impl CompletionItem {
    pub fn filter_text(&self) -> (r: &str)
        ensures
            r@ == filter_key(self.item),
    {
        match &self.item.filter_text {
            Some(t) => t.as_str(),
            None => self.item.label.as_str(),
        }
    }
}

/// One provider's answer, with its items already sorted.
#[derive(Debug)]
pub struct CompletionResponse {
    pub items: Vec<LspCompletionItem>,
    pub incomplete: bool,
    pub provider: LanguageServerId,
    pub priority: i8,
}

/// `item` as annotated with the provider and priority of a response.
pub open spec fn annotated(item: LspCompletionItem, provider: LanguageServerId, priority: i8) -> CompletionItem {
    CompletionItem { item, provider, resolved: false, provider_priority: priority }
}

/// The items of a response, each annotated with the response's provider.
pub open spec fn items_of(items: Seq<LspCompletionItem>, provider: LanguageServerId, priority: i8) -> Seq<CompletionItem> {
    items.map_values(|it: LspCompletionItem| annotated(it, provider, priority))
}

impl CompletionResponse {
    pub fn into_items(self) -> (r: Vec<CompletionItem>)
        ensures
            r@ == items_of(self.items@, self.provider, self.priority),
    {
        let provider = self.provider;
        let priority = self.priority;
        let ghost orig = self.items@;
        let mut rest = self.items;
        let mut out: Vec<CompletionItem> = Vec::new();
        let n = rest.len();
        let mut i: usize = 0;
        while i < n
            invariant
                n == orig.len(),
                i <= n,
                rest@ == orig.skip(i as int),
                out@ == items_of(orig.take(i as int), provider, priority),
            decreases n - i,
        {
            let item = rest.remove(0);
            out.push(CompletionItem { item, provider, resolved: false, provider_priority: priority });
            i = i + 1;
            assert(items_of(orig.take(i as int), provider, priority) =~= items_of(
                orig.take(i - 1),
                provider,
                priority,
            ).push(annotated(orig[i - 1], provider, priority)));
        }
        assert(orig.take(n as int) =~= orig);
        out
    }
}

/// What a provider answers to a completion request: a list of items, a list
/// that says whether it is complete, or nothing.
#[derive(Debug)]
pub enum ProviderReply {
    Array(Vec<LspCompletionItem>),
    List { is_incomplete: bool, items: Vec<LspCompletionItem> },
    Null,
}

/// The items of a reply and whether the provider marked them incomplete.
pub open spec fn reply_parts(reply: ProviderReply) -> (Seq<LspCompletionItem>, bool) {
    match reply {
        ProviderReply::Array(items) => (items@, false),
        ProviderReply::List { is_incomplete, items } => (items@, is_incomplete),
        ProviderReply::Null => (Seq::empty(), false),
    }
}

/// Turns a provider's reply into a response: the items sorted by sort text,
/// tagged with the provider and its priority.
pub fn response_from_reply(reply: ProviderReply, provider: LanguageServerId, priority: i8) -> (r: CompletionResponse)
    ensures
        is_stable_sort(reply_parts(reply).0, r.items@),
        r.incomplete == reply_parts(reply).1,
        r.provider == provider,
        r.priority == priority,
{
    let (items, incomplete) = match reply {
        ProviderReply::Array(items) => (items, false),
        ProviderReply::List { is_incomplete, items } => (items, is_incomplete),
        ProviderReply::Null => (Vec::new(), false),
    };
    let items = sort_items(items);
    CompletionResponse { items, incomplete, provider, priority }
}

/// Whether a response is worth showing: it has items, or it is incomplete.
pub fn is_useful(response: &CompletionResponse) -> (r: bool)
    ensures
        r == (response.items@.len() > 0 || response.incomplete),
{
    !response.items.is_empty() || response.incomplete
}

/// Whether `id` is a key of `entries`.
pub open spec fn has_key(entries: Seq<(LanguageServerId, i8)>, id: LanguageServerId) -> bool {
    exists|k: int| 0 <= k < entries.len() && (#[trigger] entries[k]).0 == id
}

/// No key occurs twice in `entries`.
pub open spec fn keys_unique(entries: Seq<(LanguageServerId, i8)>) -> bool {
    forall|k: int, l: int|
        0 <= k < entries.len() && 0 <= l < entries.len() && k != l ==> (#[trigger] entries[k]).0 != (
        #[trigger] entries[l]).0
}

/// The providers whose last list was incomplete, each with its priority, in
/// the order they were first recorded. A provider occurs at most once.
#[derive(Debug)]
pub struct IncompleteLists {
    entries: Vec<(LanguageServerId, i8)>,
}

impl View for IncompleteLists {
    type V = Seq<(LanguageServerId, i8)>;

    closed spec fn view(&self) -> Seq<(LanguageServerId, i8)> {
        self.entries@
    }
}

impl IncompleteLists {
    pub open spec fn wf(&self) -> bool {
        keys_unique(self@)
    }

    pub fn new() -> (r: IncompleteLists)
        ensures
            r.wf(),
            r@ == Seq::<(LanguageServerId, i8)>::empty(),
    {
        IncompleteLists { entries: Vec::new() }
    }

    pub fn len(&self) -> (r: usize)
        ensures
            r == self@.len(),
    {
        self.entries.len()
    }

    pub fn is_empty(&self) -> (r: bool)
        ensures
            r == (self@.len() == 0),
    {
        self.entries.is_empty()
    }

    pub fn entry(&self, k: usize) -> (r: (LanguageServerId, i8))
        requires
            k < self@.len(),
        ensures
            r == self@[k as int],
    {
        self.entries[k]
    }

    /// The priority recorded for `id`.
    pub fn get(&self, id: LanguageServerId) -> (r: Option<i8>)
        requires
            self.wf(),
        ensures
            match r {
                Some(p) => self@.contains((id, p)),
                None => !has_key(self@, id),
            },
    {
        let mut k: usize = 0;
        while k < self.entries.len()
            invariant
                k <= self@.len(),
                self@ == self.entries@,
                forall|m: int| 0 <= m < k ==> (#[trigger] self@[m]).0 != id,
            decreases self@.len() - k,
        {
            if self.entries[k].0 == id {
                assert(self@[k as int] == (id, self.entries@[k as int].1));
                return Some(self.entries[k].1);
            }
            k = k + 1;
        }
        None
    }

    /// Records `id` with `priority`, replacing an earlier record of `id`.
    pub fn insert(&mut self, id: LanguageServerId, priority: i8)
        requires
            old(self).wf(),
        ensures
            final(self).wf(),
            has_key(old(self)@, id) ==> forall|k: int|
                0 <= k < old(self)@.len() && (#[trigger] old(self)@[k]).0 == id ==> final(self)@ == old(
                    self,
                )@.update(k, (id, priority)),
            !has_key(old(self)@, id) ==> final(self)@ == old(self)@.push((id, priority)),
    {
        let mut k: usize = 0;
        while k < self.entries.len()
            invariant
                k <= self.entries@.len(),
                self.entries@ == old(self).entries@,
                keys_unique(self.entries@),
                forall|m: int| 0 <= m < k ==> (#[trigger] self.entries@[m]).0 != id,
            decreases self.entries@.len() - k,
        {
            if self.entries[k].0 == id {
                self.entries.set(k, (id, priority));
                assert(keys_unique(self.entries@));
                return;
            }
            k = k + 1;
        }
        self.entries.push((id, priority));
        assert(keys_unique(self.entries@));
    }
}

/// Why a completion request is made, as the protocol names it.
#[derive(Debug, Clone, Copy, PartialEq, Eq, Structural)]
pub enum CompletionTriggerKind {
    Invoked,
    TriggerCharacter,
    TriggerForIncompleteCompletions,
}

/// The context sent with a completion request.
#[derive(Debug, Clone)]
pub struct CompletionContext {
    pub trigger_kind: CompletionTriggerKind,
    pub trigger_character: Option<String>,
}

/// The context sent to provider `p` for a trigger of kind `kind`, where
/// `text` is the text before the cursor: the provider's first trigger string
/// that ends the text, unless the request was made by hand.
pub open spec fn is_context_for(c: CompletionContext, kind: TriggerKind, p: Provider, text: Seq<char>) -> bool {
    if kind != TriggerKind::Manual && !no_trigger(p.trigger_characters@, text) {
        &&& c.trigger_kind == CompletionTriggerKind::TriggerCharacter
        &&& exists|j: int|
            is_first_trigger(p.trigger_characters@, text, j) && c.trigger_character == Some(
                #[trigger] p.trigger_characters@[j],
            )
    } else {
        c.trigger_kind == CompletionTriggerKind::Invoked && c.trigger_character is None
    }
}

pub fn completion_context(kind: TriggerKind, provider: &Provider, text: &[char]) -> (r: CompletionContext)
    ensures
        is_context_for(r, kind, *provider, text@),
{
    if kind != TriggerKind::Manual {
        if let Some(j) = find_trigger(&provider.trigger_characters, text) {
            return CompletionContext {
                trigger_kind: CompletionTriggerKind::TriggerCharacter,
                trigger_character: Some(provider.trigger_characters[j].clone()),
            };
        }
    }
    CompletionContext { trigger_kind: CompletionTriggerKind::Invoked, trigger_character: None }
}

/// A completion request to send to one provider.
#[derive(Debug, Clone)]
pub struct ProviderRequest {
    pub provider: LanguageServerId,
    pub priority: i8,
    pub context: CompletionContext,
}

/// `providers[i]` is the first provider with its id.
pub open spec fn first_with_id(providers: Seq<Provider>, i: int) -> bool {
    forall|j: int| 0 <= j < i ==> (#[trigger] providers[j]).id != providers[i].id
}

/// The indices of the first `n` providers that are not repeats of an earlier
/// provider, in order.
pub open spec fn distinct_providers(providers: Seq<Provider>, n: int) -> Seq<int>
    decreases n,
{
    if n <= 0 {
        Seq::empty()
    } else if first_with_id(providers, n - 1) {
        distinct_providers(providers, n - 1).push(n - 1)
    } else {
        distinct_providers(providers, n - 1)
    }
}

proof fn lemma_distinct_bounds(providers: Seq<Provider>, n: int)
    requires
        0 <= n,
    ensures
        distinct_providers(providers, n).len() <= n,
        forall|k: int|
            0 <= k < distinct_providers(providers, n).len() ==> 0 <= #[trigger] distinct_providers(providers, n)[k]
                < n,
    decreases n,
{
    if n > 0 {
        lemma_distinct_bounds(providers, n - 1);
    }
}

/// The request sent to the provider at position `k` of the eligible
/// providers (those left once repeats are dropped).
pub open spec fn is_request_for(
    r: ProviderRequest,
    k: int,
    p: Provider,
    kind: TriggerKind,
    text: Seq<char>,
) -> bool {
    &&& r.provider == p.id
    &&& r.priority == -k
    &&& is_context_for(r.context, kind, p, text)
}

/// The requests to send, one per eligible provider, in the order providers
/// were declared.
pub open spec fn is_fan_out(
    requests: Seq<ProviderRequest>,
    providers: Seq<Provider>,
    kind: TriggerKind,
    text: Seq<char>,
) -> bool {
    let d = distinct_providers(providers, providers.len() as int);
    &&& requests.len() == d.len()
    &&& forall|k: int| 0 <= k < d.len() ==> is_request_for(#[trigger] requests[k], k, providers[d[k]], kind, text)
}

/// Builds one request per provider, skipping providers whose id was already
/// seen; the `k`-th request gets priority `-k`.
pub fn fan_out(providers: &[Provider], kind: TriggerKind, text: &[char]) -> (r: Vec<ProviderRequest>)
    requires
        providers@.len() <= 128,
    ensures
        is_fan_out(r@, providers@, kind, text@),
{
    let mut out: Vec<ProviderRequest> = Vec::new();
    let mut i: usize = 0;
    while i < providers.len()
        invariant
            i <= providers@.len() <= 128,
            out@.len() == distinct_providers(providers@, i as int).len(),
            forall|k: int|
                0 <= k < out@.len() ==> is_request_for(
                    #[trigger] out@[k],
                    k,
                    providers@[distinct_providers(providers@, i as int)[k]],
                    kind,
                    text@,
                ),
        decreases providers@.len() - i,
    {
        proof {
            lemma_distinct_bounds(providers@, i as int);
        }
        let mut j: usize = 0;
        while j < i && providers[j].id.0 != providers[i].id.0
            invariant
                j <= i < providers@.len(),
                forall|m: int| 0 <= m < j ==> (#[trigger] providers@[m]).id != providers@[i as int].id,
            decreases i - j,
        {
            j = j + 1;
        }
        if j == i {
            let priority: i8 = -(out.len() as i8);
            let context = completion_context(kind, &providers[i], text);
            out.push(ProviderRequest { provider: providers[i].id, priority, context });
        }
        i = i + 1;
    }
    out
}

/// What to request, once the guard has passed: the trigger moved to the
/// cursor, and one request per eligible provider.
#[derive(Debug)]
pub struct RequestPlan {
    pub trigger: Trigger,
    pub requests: Vec<ProviderRequest>,
}

/// Whether a fired trigger is still worth requesting: no popup is open, the
/// editor is in insert mode, the view and document are the trigger's, and the
/// cursor has not moved back before the trigger.
pub open spec fn request_wanted(
    trigger: Trigger,
    popup_open: bool,
    insert_mode: bool,
    view: ViewId,
    doc: DocumentId,
    cursor: int,
) -> bool {
    !popup_open && insert_mode && trigger.view == view && trigger.doc == doc && cursor >= trigger.pos
}

/// Decides what a fired trigger requests. `text` is the document's text
/// before the primary cursor of `view`; `providers` the document's providers
/// of completions in declaration order.
pub fn request_completions(
    trigger: Trigger,
    popup_open: bool,
    insert_mode: bool,
    view: ViewId,
    doc: DocumentId,
    text: &[char],
    providers: &[Provider],
) -> (r: Option<RequestPlan>)
    requires
        providers@.len() <= 128,
    ensures
        r is Some == request_wanted(trigger, popup_open, insert_mode, view, doc, text@.len() as int),
        r matches Some(plan) ==> {
            &&& plan.trigger == Trigger { pos: text@.len() as usize, ..trigger }
            &&& is_fan_out(plan.requests@, providers@, trigger.kind, text@)
        },
{
    let cursor = text.len();
    if popup_open || !insert_mode {
        return None;
    }
    if trigger.view != view || trigger.doc != doc || cursor < trigger.pos {
        return None;
    }
    let trigger = Trigger { pos: cursor, ..trigger };
    let requests = fan_out(providers, trigger.kind, text);
    Some(RequestPlan { trigger, requests })
}

/// The replies gathered before the popup is shown.
#[derive(Debug)]
pub struct Collection {
    pub items: Vec<CompletionItem>,
    pub incomplete: IncompleteLists,
}

impl Collection {
    /// Starts with the first useful response.
    pub fn new(first: CompletionResponse) -> (r: Collection)
        ensures
            r.incomplete.wf(),
            r.items@ == items_of(first.items@, first.provider, first.priority),
            r.incomplete@ == if first.incomplete {
                seq![(first.provider, first.priority)]
            } else {
                Seq::empty()
            },
    {
        let mut c = Collection { items: Vec::new(), incomplete: IncompleteLists::new() };
        c.add(first);
        assert(Seq::<CompletionItem>::empty() + items_of(first.items@, first.provider, first.priority) =~= items_of(first.items@, first.provider, first.priority));
        c
    }

    /// Adds a later response: its items go after those gathered so far, and
    /// an incomplete response records its provider.
    pub fn add(&mut self, response: CompletionResponse)
        requires
            old(self).incomplete.wf(),
        ensures
            final(self).incomplete.wf(),
            final(self).items@ == old(self).items@ + items_of(response.items@, response.provider, response.priority),
            !response.incomplete ==> final(self).incomplete@ == old(self).incomplete@,
            response.incomplete && !has_key(old(self).incomplete@, response.provider) ==> final(self).incomplete@
                == old(self).incomplete@.push((response.provider, response.priority)),
            response.incomplete && has_key(old(self).incomplete@, response.provider) ==> forall|k: int|
                0 <= k < old(self).incomplete@.len() && (#[trigger] old(self).incomplete@[k]).0 == response.provider
                    ==> final(self).incomplete@ == old(self).incomplete@.update(
                    k,
                    (response.provider, response.priority),
                ),
    {
        if response.incomplete {
            self.incomplete.insert(response.provider, response.priority);
        }
        let mut more = response.into_items();
        self.items.append(&mut more);
    }
}

/// Every item that a reply to the `k`-th request of a fan-out brings carries
/// that request's provider and the priority `-k`.
pub proof fn lemma_priority_is_negated_index(
    requests: Seq<ProviderRequest>,
    providers: Seq<Provider>,
    kind: TriggerKind,
    text: Seq<char>,
    k: int,
    reply: Seq<LspCompletionItem>,
)
    requires
        is_fan_out(requests, providers, kind, text),
        0 <= k < requests.len(),
    ensures
        forall|m: int|
            0 <= m < reply.len() ==> (#[trigger] items_of(reply, requests[k].provider, requests[k].priority)[m]).provider_priority
                == -k && items_of(reply, requests[k].provider, requests[k].priority)[m].provider
                == providers[distinct_providers(providers, providers.len() as int)[k]].id,
{
    assert(is_request_for(requests[k], k, providers[distinct_providers(providers, providers.len() as int)[k]], kind, text));
}

} // verus!
