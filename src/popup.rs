//! The completion popup as the core sees it: installing it, replacing one
//! provider's items when a late reply arrives, and keeping it current while
//! the user types.
use vstd::prelude::*;
use crate::debounce::following;
use crate::diagnostic::LanguageServerId;
use crate::request::{
    items_of, keys_unique, CompletionContext, CompletionItem, CompletionResponse, CompletionTriggerKind,
    IncompleteLists, ProviderRequest,
};
use crate::trigger::{DocumentId, Trigger, ViewId};

verus! {

/// One incarnation of a popup's version counter: which counter it is, and
/// the value it held. A task that captured a version may touch the popup
/// only while the popup's counter is the same counter with the same value.
#[derive(Debug, Clone, Copy, PartialEq, Eq, Structural)]
pub struct Version {
    pub identity: u64,
    pub value: u64,
}

/// An open completion popup.
#[derive(Debug)]
pub struct CompletionPopup {
    pub items: Vec<CompletionItem>,
    pub incomplete: IncompleteLists,
    /// Where the completion was requested.
    pub trigger_pos: usize,
    /// What the user typed since the popup opened.
    pub filter: Vec<char>,
    pub version: Version,
}

/// The editor view's completion slot.
#[derive(Debug)]
pub struct CompletionUi {
    pub completion: Option<CompletionPopup>,
    /// The identity the next popup's version counter gets.
    pub next_version: u64,
}

/// The items that did not come from `provider`, in order.
pub open spec fn without_provider(items: Seq<CompletionItem>, provider: LanguageServerId) -> Seq<CompletionItem>
    decreases items.len(),
{
    if items.len() == 0 {
        Seq::empty()
    } else if items.last().provider != provider {
        without_provider(items.drop_last(), provider).push(items.last())
    } else {
        without_provider(items.drop_last(), provider)
    }
}

/// Whether a task that captured `version` may still replace items.
pub open spec fn version_current(ui: CompletionUi, version: Version) -> bool {
    ui.completion matches Some(p) && p.version == version
}

/// The entries of `entries` whose provider is among `live`, in order.
pub open spec fn retained(entries: Seq<(LanguageServerId, i8)>, live: Seq<LanguageServerId>) -> Seq<
    (LanguageServerId, i8),
>
    decreases entries.len(),
{
    if entries.len() == 0 {
        Seq::empty()
    } else if live.contains(entries.last().0) {
        retained(entries.drop_last(), live).push(entries.last())
    } else {
        retained(entries.drop_last(), live)
    }
}

/// The refresh request sent for an incomplete-list entry.
pub open spec fn is_refresh_request(r: ProviderRequest, entry: (LanguageServerId, i8)) -> bool {
    &&& r.provider == entry.0
    &&& r.priority == entry.1
    &&& r.context.trigger_kind == CompletionTriggerKind::TriggerForIncompleteCompletions
    &&& r.context.trigger_character is None
}

fn contains_id(live: &[LanguageServerId], id: LanguageServerId) -> (r: bool)
    ensures
        r == live@.contains(id),
{
    let mut k: usize = 0;
    while k < live.len()
        invariant
            k <= live@.len(),
            forall|m: int| 0 <= m < k ==> live@[m] != id,
        decreases live@.len() - k,
    {
        if live[k].0 == id.0 {
            assert(live@[k as int] == id);
            return true;
        }
        k = k + 1;
    }
    false
}

/// Re-requests the lists of the providers recorded as incomplete, at the
/// current cursor. Providers that are gone (not in `live`) are dropped from
/// the record; the others stay in it.
pub fn request_incomplete_completion_list(
    incomplete: &mut IncompleteLists,
    live: &[LanguageServerId],
) -> (r: Vec<ProviderRequest>)
    requires
        old(incomplete).wf(),
    ensures
        final(incomplete).wf(),
        final(incomplete)@ == retained(old(incomplete)@, live@),
        r@.len() == final(incomplete)@.len(),
        forall|k: int| 0 <= k < r@.len() ==> is_refresh_request(#[trigger] r@[k], final(incomplete)@[k]),
{
    let ghost orig = incomplete@;
    let mut kept = IncompleteLists::new();
    let mut requests: Vec<ProviderRequest> = Vec::new();
    let n = incomplete.len();
    let mut i: usize = 0;
    while i < n
        invariant
            n == orig.len(),
            i <= n,
            incomplete@ == orig,
            incomplete.wf(),
            kept.wf(),
            kept@ == retained(orig.take(i as int), live@),
            forall|m: int| 0 <= m < kept@.len() ==> exists|k: int| 0 <= k < i && #[trigger] kept@[m] == orig[k],
            requests@.len() == kept@.len(),
            forall|k: int| 0 <= k < requests@.len() ==> is_refresh_request(#[trigger] requests@[k], kept@[k]),
        decreases n - i,
    {
        let (id, priority) = incomplete.entry(i);
        assert(orig.take(i + 1).drop_last() =~= orig.take(i as int));
        if contains_id(live, id) {
            proof {
                assert(keys_unique(orig));
                assert(!crate::request::has_key(kept@, id)) by {
                    if crate::request::has_key(kept@, id) {
                        let m = choose|m: int| 0 <= m < kept@.len() && (#[trigger] kept@[m]).0 == id;
                        let k = choose|k: int| 0 <= k < i && #[trigger] kept@[m] == orig[k];
                        assert(orig[k].0 == orig[i as int].0);
                    }
                }
            }
            kept.insert(id, priority);
            requests.push(
                ProviderRequest {
                    provider: id,
                    priority,
                    context: CompletionContext {
                        trigger_kind: CompletionTriggerKind::TriggerForIncompleteCompletions,
                        trigger_character: None,
                    },
                },
            );
            proof {
                assert forall|m: int| 0 <= m < kept@.len() implies exists|k: int|
                    0 <= k < i + 1 && #[trigger] kept@[m] == orig[k] by {
                    if m == kept@.len() - 1 {
                        assert(kept@[m] == orig[i as int]);
                    }
                }
            }
        }
        i = i + 1;
    }
    assert(orig.take(n as int) =~= orig);
    *incomplete = kept;
    requests
}

/// What the host does after the user typed or deleted with a popup open.
#[derive(Debug)]
pub enum FilterOutcome {
    /// There was no popup.
    NoPopup,
    /// The popup became empty and was closed; when `retrigger` holds, the
    /// host classifies the text again (the typed character may be a trigger).
    Cleared { retrigger: bool },
    /// The popup stays; these refresh requests go out, and their replies may
    /// replace items while `version` is current.
    Refresh { version: Version, requests: Vec<ProviderRequest> },
}

/// The filter after typing `c`, or after a backspace when `c` is `None`.
pub open spec fn next_filter(filter: Seq<char>, c: Option<char>) -> Seq<char> {
    match c {
        Some(ch) => filter.push(ch),
        None => if filter.len() > 0 {
            filter.drop_last()
        } else {
            filter
        },
    }
}

impl CompletionPopup {
    pub open spec fn wf(&self) -> bool {
        self.incomplete.wf()
    }

    /// Replaces the items of the response's provider with the response's.
    pub fn replace_provider_completions(&mut self, response: CompletionResponse)
        requires
            old(self).wf(),
        ensures
            final(self).wf(),
            final(self).items@ == without_provider(old(self).items@, response.provider) + items_of(
                response.items@,
                response.provider,
                response.priority,
            ),
            final(self).incomplete@ == old(self).incomplete@,
            final(self).trigger_pos == old(self).trigger_pos,
            final(self).filter@ == old(self).filter@,
            final(self).version == old(self).version,
    {
        let provider = response.provider;
        let mut old_items: Vec<CompletionItem> = Vec::new();
        core::mem::swap(&mut old_items, &mut self.items);
        let ghost orig = old_items@;
        let mut kept: Vec<CompletionItem> = Vec::new();
        let n = old_items.len();
        let mut i: usize = 0;
        while i < n
            invariant
                n == orig.len(),
                i <= n,
                old_items@ == orig.skip(i as int),
                kept@ == without_provider(orig.take(i as int), provider),
            decreases n - i,
        {
            let item = old_items.remove(0);
            assert(orig.take(i + 1).drop_last() =~= orig.take(i as int));
            if item.provider.0 != provider.0 {
                kept.push(item);
            }
            i = i + 1;
        }
        assert(orig.take(n as int) =~= orig);
        let mut more = response.into_items();
        kept.append(&mut more);
        self.items = kept;
    }
}

impl CompletionUi {
    pub open spec fn wf(&self) -> bool {
        self.completion matches Some(p) ==> p.wf()
    }

    pub fn new() -> (r: CompletionUi)
        ensures
            r.wf(),
            r.completion is None,
            r.next_version == 0,
    {
        CompletionUi { completion: None, next_version: 0 }
    }

    /// Installs a popup with the gathered items, unless the request went
    /// stale: the editor left insert mode, the view or document changed, or a
    /// popup is already open. `filter` is the text the popup starts matching
    /// items against. Returns the new popup's version, a fresh counter.
    pub fn show_completion(
        &mut self,
        insert_mode: bool,
        view: ViewId,
        doc: DocumentId,
        items: Vec<CompletionItem>,
        incomplete: IncompleteLists,
        trigger: Trigger,
        filter: Vec<char>,
    ) -> (r: Option<Version>)
        requires
            old(self).wf(),
            incomplete.wf(),
        ensures
            final(self).wf(),
            r is Some == (insert_mode && trigger.view == view && trigger.doc == doc && old(self).completion is None),
            r is None ==> *final(self) == *old(self),
            r matches Some(v) ==> {
                &&& v == Version { identity: old(self).next_version, value: 0 }
                &&& final(self).next_version == following(old(self).next_version)
                &&& final(self).completion matches Some(p) && p.items@ == items@ && p.incomplete@ == incomplete@
                    && p.trigger_pos == trigger.pos && p.filter@ == filter@ && p.version == v
            },
    {
        if !insert_mode || trigger.view != view || trigger.doc != doc {
            return None;
        }
        if self.completion.is_some() {
            return None;
        }
        let version = Version { identity: self.next_version, value: 0 };
        self.next_version = if self.next_version == u64::MAX { 0 } else { self.next_version + 1 };
        self.completion = Some(
            CompletionPopup { items, incomplete, trigger_pos: trigger.pos, filter, version },
        );
        Some(version)
    }

    /// Applies a late reply captured at `version`: only while the popup's
    /// counter is that very counter with that value are the reply's items
    /// put in place of its provider's.
    pub fn replace_completions(&mut self, version: Version, response: CompletionResponse) -> (r: bool)
        requires
            old(self).wf(),
        ensures
            final(self).wf(),
            r == version_current(*old(self), version),
            !r ==> *final(self) == *old(self),
            r ==> final(self).next_version == old(self).next_version,
            r ==> (final(self).completion matches Some(p) && (old(self).completion matches Some(q) && {
                &&& p.items@ == without_provider(q.items@, response.provider) + items_of(
                    response.items@,
                    response.provider,
                    response.priority,
                )
                &&& p.incomplete@ == q.incomplete@
                &&& p.trigger_pos == q.trigger_pos
                &&& p.filter@ == q.filter@
                &&& p.version == q.version
            })),
    {
        let current = match &self.completion {
            Some(p) => p.version.identity == version.identity && p.version.value == version.value,
            None => false,
        };
        if !current {
            return false;
        }
        let mut popup = self.completion.take().unwrap();
        popup.replace_provider_completions(response);
        self.completion = Some(popup);
        true
    }

    /// Closes the popup.
    pub fn clear_completions(&mut self)
        ensures
            final(self).wf(),
            final(self).completion is None,
            final(self).next_version == old(self).next_version,
    {
        self.completion = None;
    }

    /// The user typed `c` (or deleted, when `c` is `None`) with a popup open.
    /// The popup's filter follows, and its counter moves on, so that replies
    /// requested for the earlier filter are dropped. `empty` is whether the
    /// popup shows no item under the new filter; `live` lists the providers
    /// still running.
    pub fn update_completion_filter(
        &mut self,
        c: Option<char>,
        empty: bool,
        live: &[LanguageServerId],
    ) -> (r: FilterOutcome)
        requires
            old(self).wf(),
        ensures
            final(self).wf(),
            final(self).next_version == old(self).next_version,
            match old(self).completion {
                None => final(self).completion is None && r is NoPopup,
                Some(q) => if empty {
                    final(self).completion is None && r == (FilterOutcome::Cleared { retrigger: c is Some })
                } else {
                    (final(self).completion matches Some(p) && (r matches FilterOutcome::Refresh { version, requests } && {
                        &&& p.items@ == q.items@
                        &&& p.trigger_pos == q.trigger_pos
                        &&& p.filter@ == next_filter(q.filter@, c)
                        &&& p.version == Version { identity: q.version.identity, value: following(q.version.value) }
                        &&& version == p.version
                        &&& p.incomplete@ == retained(q.incomplete@, live@)
                        &&& requests@.len() == p.incomplete@.len()
                        &&& forall|k: int|
                            0 <= k < requests@.len() ==> is_refresh_request(#[trigger] requests@[k], p.incomplete@[k])
                    }))
                },
            },
    {
        if self.completion.is_none() {
            return FilterOutcome::NoPopup;
        }
        let mut popup = self.completion.take().unwrap();
        if empty {
            return FilterOutcome::Cleared { retrigger: c.is_some() };
        }
        match c {
            Some(ch) => popup.filter.push(ch),
            None => {
                if popup.filter.len() > 0 {
                    popup.filter.pop();
                }
            },
        }
        let value = popup.version.value;
        popup.version = Version {
            identity: popup.version.identity,
            value: if value == u64::MAX { 0 } else { value + 1 },
        };
        let requests = request_incomplete_completion_list(&mut popup.incomplete, live);
        let version = popup.version;
        self.completion = Some(popup);
        FilterOutcome::Refresh { version, requests }
    }
}

/// A task that captured a version which the popup no longer carries (its
/// counter was replaced, or moved on) never changes the popup.
pub proof fn lemma_stale_version_inert(ui: CompletionUi, captured: Version)
    requires
        ui.completion matches Some(p) ==> (p.version.identity != captured.identity || p.version.value
            != captured.value),
    ensures
        !version_current(ui, captured),
{
}

} // verus!
