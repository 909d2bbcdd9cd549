//! The conversation manager: per-user histories plus the capability-aware
//! system prompt, and the two halves of one chat exchange.
//!
//! A provider call stands between the two halves and is made by the
//! caller: `begin_exchange` records the user's turn and builds the full
//! request, `complete_exchange` takes what the provider returned and
//! either records the assistant's turn or reports the response empty.

use vstd::prelude::*;

use crate::conversation::{ConversationStore, Role, Turn, TurnV};
use crate::errors::ProviderError;
use crate::system_msg::{spec_render, spec_upsert, SystemMsg};

verus! {

/// One choice of a provider response: its message content, when present.
pub struct ChatChoice {
    pub content: Option<String>,
}

/// The system turn composed from the given intro and registry state.
pub open spec fn spec_system_turn(intro: Seq<char>, caps: Seq<(Seq<char>, Seq<char>)>) -> TurnV {
    TurnV { role: Role::System, content: spec_render(intro, caps) }
}

/// The conversation manager.
pub struct Chat {
    store: ConversationStore,
    system_msg: SystemMsg,
    chat_model: String,
}

impl Chat {
    /// The model identifier sent with every request.
    pub closed spec fn spec_model(&self) -> Seq<char> {
        self.chat_model@
    }

    /// The configured intro of the system prompt.
    pub closed spec fn spec_intro(&self) -> Seq<char> {
        self.system_msg.spec_intro()
    }

    /// The registry entries, in insertion order.
    pub closed spec fn caps(&self) -> Seq<(Seq<char>, Seq<char>)> {
        self.system_msg.caps()
    }

    /// The stored history of one user.
    pub closed spec fn spec_history(&self, u: Seq<char>) -> Seq<TurnV> {
        self.store.spec_history(u)
    }

    /// Whether the user has a history entry.
    pub closed spec fn spec_contains(&self, u: Seq<char>) -> bool {
        self.store.spec_contains(u)
    }

    /// Registry and store both keep their keys unique.
    pub closed spec fn wf(&self) -> bool {
        self.store.wf() && self.system_msg.wf()
    }

    /// A manager with no users and no capabilities yet.
    pub fn new(chat_model: String, system_msg_intro: String) -> (r: Chat)
        ensures
            r.wf(),
            r.spec_model() == chat_model@,
            r.spec_intro() == system_msg_intro@,
            r.caps() == Seq::<(Seq<char>, Seq<char>)>::empty(),
            forall|u: Seq<char>| #[trigger] r.spec_history(u) == Seq::<TurnV>::empty(),
            forall|u: Seq<char>| !#[trigger] r.spec_contains(u),
    {
        Chat {
            store: ConversationStore::new(),
            system_msg: SystemMsg::new(system_msg_intro),
            chat_model,
        }
    }

    /// Folds one capability advertisement into the registry; the next
    /// composed system prompt sees it.
    pub fn update_capability(&mut self, capability: &str, message: &str)
        requires
            old(self).wf(),
        ensures
            final(self).wf(),
            final(self).caps() == spec_upsert(old(self).caps(), capability@, message@),
            final(self).spec_model() == old(self).spec_model(),
            final(self).spec_intro() == old(self).spec_intro(),
            forall|u: Seq<char>|
                #[trigger] final(self).spec_history(u) == old(self).spec_history(u),
            forall|u: Seq<char>|
                #[trigger] final(self).spec_contains(u) == old(self).spec_contains(u),
    {
        self.system_msg.update_capability(capability, message);
    }

    /// The raw capability pairs, for introspection.
    pub fn get_capabilities(&self) -> (r: &Vec<(String, String)>)
        ensures
            r.deep_view() == self.caps(),
    {
        self.system_msg.entries()
    }

    /// The composed system prompt for the current registry state.
    pub fn compose_system_msg(&self) -> (r: String)
        ensures
            r@ == spec_render(self.spec_intro(), self.caps()),
    {
        self.system_msg.render()
    }

    /// The introspection listing of the registry.
    pub fn capability_listing(&self) -> (r: String)
        ensures
            r@ == crate::system_msg::spec_listing(self.caps()),
    {
        self.system_msg.listing()
    }

    /// A copy of the user's stored history; empty when the user has not
    /// talked yet.
    pub fn history_of(&self, user: &String) -> (r: Vec<Turn>)
        requires
            self.wf(),
        ensures
            r.deep_view() == self.spec_history(user@),
    {
        self.store.turns_of(user)
    }

    /// Records the user's turn and builds the provider request: the
    /// freshly composed system turn, then the user's full history, the
    /// new turn last.
    pub fn begin_exchange(&mut self, user: &String, text: String) -> (r: Vec<Turn>)
        requires
            old(self).wf(),
        ensures
            final(self).wf(),
            final(self).caps() == old(self).caps(),
            final(self).spec_model() == old(self).spec_model(),
            final(self).spec_intro() == old(self).spec_intro(),
            final(self).spec_history(user@) == old(self).spec_history(user@).push(
                TurnV { role: Role::User, content: text@ },
            ),
            forall|u2: Seq<char>|
                u2 != user@ ==> #[trigger] final(self).spec_history(u2) == old(self).spec_history(
                    u2,
                ),
            forall|u2: Seq<char>|
                #[trigger] final(self).spec_contains(u2) <==> old(self).spec_contains(u2) || u2
                    == user@,
            r.deep_view() == seq![spec_system_turn(old(self).spec_intro(), old(self).caps())]
                + final(self).spec_history(user@),
    {
        let sys = Turn::system(self.system_msg.render());
        let ghost sysv = sys@;
        self.store.append_turn(user, Turn::user(text));
        let stored = self.store.turns_of(user);
        let mut r: Vec<Turn> = Vec::new();
        r.push(sys);
        let mut i: usize = 0;
        while i < stored.len()
            invariant
                i <= stored@.len(),
                r@.len() == i + 1,
                r@[0]@ == sysv,
                forall|j: int| 0 <= j < i ==> #[trigger] r@[j + 1]@ == stored@[j]@,
            decreases stored@.len() - i,
        {
            r.push(stored[i].duplicate());
            i = i + 1;
        }
        proof {
            let target = seq![sysv] + stored.deep_view();
            assert forall|j: int| 0 <= j < r@.len() implies r.deep_view()[j] == target[j] by {
                assert(r.deep_view()[j] == r@[j]@);
                if j > 0 {
                    assert(r@[(j - 1) + 1]@ == stored@[j - 1]@);
                    assert(stored.deep_view()[j - 1] == stored@[j - 1]@);
                }
            }
            assert(r.deep_view() =~= target);
        }
        r
    }

    /// Takes the choices of the provider's response.  When the first
    /// choice carries content, that content is recorded as the
    /// assistant's turn of the user's history and returned; a response
    /// with no choices or no content changes nothing and is reported
    /// empty.
    pub fn complete_exchange(&mut self, user: &String, choices: &Vec<ChatChoice>) -> (r: Result<
        String,
        ProviderError,
    >)
        requires
            old(self).wf(),
        ensures
            final(self).wf(),
            final(self).caps() == old(self).caps(),
            final(self).spec_model() == old(self).spec_model(),
            final(self).spec_intro() == old(self).spec_intro(),
            r is Ok <==> choices@.len() > 0 && choices@[0].content is Some,
            r is Err ==> r->Err_0 is EmptyResponse && *final(self) == *old(self),
            r is Ok ==> {
                &&& r->Ok_0@ == choices@[0].content->0@
                &&& final(self).spec_history(user@) == old(self).spec_history(user@).push(
                    TurnV { role: Role::Assistant, content: r->Ok_0@ },
                )
                &&& forall|u2: Seq<char>|
                    u2 != user@ ==> #[trigger] final(self).spec_history(u2) == old(
                        self,
                    ).spec_history(u2)
                &&& forall|u2: Seq<char>|
                    #[trigger] final(self).spec_contains(u2) <==> old(self).spec_contains(u2)
                        || u2 == user@
            },
    {
        if choices.len() == 0 {
            return Err(ProviderError::EmptyResponse);
        }
        match &choices[0].content {
            Some(c) => {
                let content = c.clone();
                self.store.append_turn(user, Turn::assistant(content.clone()));
                Ok(content)
            },
            None => Err(ProviderError::EmptyResponse),
        }
    }
}

} // verus!
