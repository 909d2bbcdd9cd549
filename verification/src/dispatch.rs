//! The topic dispatcher: one inbound bus message at a time is routed by
//! topic and message type to its handler.
//!
//! Handlers that need a provider call do not make it here: dispatch
//! returns a plan naming the call and the caller performs it, bracketed
//! by the lifecycle events the plan names, then hands the outcome back
//! (for chat, to `Chat::complete_exchange`).  Everything else — the
//! introspection reply, the capability fold, the pass-through — is
//! decided and applied in place.

use vstd::prelude::*;

use crate::chat::{spec_system_turn, Chat};
use crate::conversation::{Role, Turn, TurnV};
use crate::errors::DispatchError;
use crate::message::{InboundMessage, MessageType};
use crate::system_msg::{spec_listing, spec_upsert};

verus! {

/// Relies on alfred_core's `MODULE_INFO_TOPIC_REQUEST` constant: the
/// discovery-request topic name, `"module.info.request"`.
#[verifier::external_body]
fn module_info_request_topic() -> (r: String)
    ensures
        r@ == "module.info.request"@,
{
    alfred_core::connection::MODULE_INFO_TOPIC_REQUEST.to_string()
}

/// Relies on alfred_core's `MODULE_INFO_TOPIC_RESPONSE` constant: the
/// discovery-response topic name, `"module.info.response"`.
#[verifier::external_body]
fn module_info_response_topic() -> (r: String)
    ensures
        r@ == "module.info.response"@,
{
    alfred_core::connection::MODULE_INFO_TOPIC_RESPONSE.to_string()
}

/// Relies on uuid's `Uuid::new_v4` and its hyphenated display form: a
/// fresh random identifier, 36 characters long.  Nothing is assumed
/// about its value.
#[verifier::external_body]
fn fresh_audio_id() -> (r: String)
    ensures
        r@.len() == 36,
{
    uuid::Uuid::new_v4().to_string()
}

/// The topic names the module listens and answers on.
pub struct TopicConfig {
    pub chat: String,
    pub chat_debug: String,
    pub info_request: String,
    pub info_response: String,
    pub stt: String,
    pub tts: String,
}

impl TopicConfig {
    /// The module's default topic names; the discovery topics are the
    /// bus library's.
    pub fn defaults() -> (r: TopicConfig)
        ensures
            r.chat@ == "chat"@,
            r.chat_debug@ == "chat.debug"@,
            r.info_request@ == "module.info.request"@,
            r.info_response@ == "module.info.response"@,
            r.stt@ == "stt"@,
            r.tts@ == "tts"@,
    {
        TopicConfig {
            chat: String::from_str("chat"),
            chat_debug: String::from_str("chat.debug"),
            info_request: module_info_request_topic(),
            info_response: module_info_response_topic(),
            stt: String::from_str("stt"),
            tts: String::from_str("tts"),
        }
    }

    /// Classifies a topic name against this configuration.
    pub fn route(&self, topic: &String) -> (r: Route)
        ensures
            r == spec_route(*self, topic@),
    {
        if *topic == self.chat {
            Route::Chat
        } else if *topic == self.chat_debug {
            Route::ChatDebug
        } else if *topic == self.info_response {
            Route::InfoResponse
        } else if *topic == self.stt {
            Route::Stt
        } else if *topic == self.tts {
            Route::Tts
        } else {
            Route::Unknown
        }
    }

    /// The topics to subscribe to at startup: the chat, debug and
    /// discovery-response topics always, the transcription and synthesis
    /// topics only when their subsystems are enabled.
    pub fn startup_subscriptions(&self, stt_enabled: bool, tts_enabled: bool) -> (r: Vec<String>)
        ensures
            r.deep_view() == spec_subscriptions(*self, stt_enabled, tts_enabled),
    {
        let mut r: Vec<String> = Vec::new();
        r.push(self.chat.clone());
        r.push(self.chat_debug.clone());
        r.push(self.info_response.clone());
        if stt_enabled {
            r.push(self.stt.clone());
        }
        if tts_enabled {
            r.push(self.tts.clone());
        }
        proof {
            assert(r.deep_view() =~= spec_subscriptions(*self, stt_enabled, tts_enabled));
        }
        r
    }
}

/// Which handler a topic belongs to, in the order the dispatcher checks.
#[derive(Clone, Copy, PartialEq, Eq, Structural, Debug)]
pub enum Route {
    Chat,
    ChatDebug,
    InfoResponse,
    Stt,
    Tts,
    Unknown,
}

/// The route of a topic name: the first configured topic it equals, or
/// unknown.
pub open spec fn spec_route(t: TopicConfig, topic: Seq<char>) -> Route {
    if topic == t.chat@ {
        Route::Chat
    } else if topic == t.chat_debug@ {
        Route::ChatDebug
    } else if topic == t.info_response@ {
        Route::InfoResponse
    } else if topic == t.stt@ {
        Route::Stt
    } else if topic == t.tts@ {
        Route::Tts
    } else {
        Route::Unknown
    }
}

/// The startup subscription list for a topic configuration.
pub open spec fn spec_subscriptions(t: TopicConfig, stt_enabled: bool, tts_enabled: bool) -> Seq<
    Seq<char>,
> {
    let base = seq![t.chat@, t.chat_debug@, t.info_response@];
    let with_stt = if stt_enabled {
        base.push(t.stt@)
    } else {
        base
    };
    if tts_enabled {
        with_stt.push(t.tts@)
    } else {
        with_stt
    }
}

/// What the dispatcher decided for one inbound message.
#[derive(Debug)]
pub enum DispatchPlan {
    /// Call the chat provider with this request, then hand the outcome
    /// to `Chat::complete_exchange` and reply with the returned text.
    ChatCall { user: String, request: Vec<Turn> },
    /// Publish this reply; no provider call is involved.
    Reply { message_type: MessageType, text: String },
    /// The capability registry was updated; nothing to reply.
    Updated,
    /// Transcribe this audio payload, then reply with the text.
    Transcribe { file: String },
    /// Synthesize the text into the output file, then reply with the
    /// file path as an audio message.
    Synthesize { text: String, output_path: String },
}

/// The lifecycle event pair bracketing the plan's provider call:
/// the started event is emitted before the call, the ended event after
/// it succeeds.  Plans without a provider call have none.
pub fn lifecycle_events(plan: &DispatchPlan) -> (r: Option<(String, String)>)
    ensures
        plan is ChatCall ==> (r matches Some(ev) && ev.0@ == "chat_started"@ && ev.1@
            == "chat_ended"@),
        plan is Transcribe ==> (r matches Some(ev) && ev.0@ == "stt_started"@ && ev.1@
            == "stt_ended"@),
        plan is Synthesize ==> (r matches Some(ev) && ev.0@ == "tts_started"@ && ev.1@
            == "tts_ended"@),
        plan is Reply || plan is Updated ==> r is None,
{
    match plan {
        DispatchPlan::ChatCall { .. } => Some(
            (String::from_str("chat_started"), String::from_str("chat_ended")),
        ),
        DispatchPlan::Transcribe { .. } => Some(
            (String::from_str("stt_started"), String::from_str("stt_ended")),
        ),
        DispatchPlan::Synthesize { .. } => Some(
            (String::from_str("tts_started"), String::from_str("tts_ended")),
        ),
        DispatchPlan::Reply { .. } => None,
        DispatchPlan::Updated => None,
    }
}

/// The file path generated for one synthesis output.
pub open spec fn spec_audio_path(dir: Seq<char>, id: Seq<char>) -> Seq<char> {
    dir + "/"@ + id + ".mp3"@
}

/// Every capability pair folded in, first pair first; a later pair under
/// the same name overwrites the earlier.
pub open spec fn spec_upsert_all(
    caps: Seq<(Seq<char>, Seq<char>)>,
    params: Seq<(Seq<char>, Seq<char>)>,
) -> Seq<(Seq<char>, Seq<char>)>
    decreases params.len(),
{
    if params.len() == 0 {
        caps
    } else {
        spec_upsert_all(
            spec_upsert(caps, params.first().0, params.first().1),
            params.drop_first(),
        )
    }
}

/// Folding one more pair upserts it after the earlier ones.
proof fn lemma_upsert_all_push(
    caps: Seq<(Seq<char>, Seq<char>)>,
    params: Seq<(Seq<char>, Seq<char>)>,
    p: (Seq<char>, Seq<char>),
)
    ensures
        spec_upsert_all(caps, params.push(p)) == spec_upsert(
            spec_upsert_all(caps, params),
            p.0,
            p.1,
        ),
    decreases params.len(),
{
    let w = params.push(p);
    if params.len() == 0 {
        assert(w.drop_first() =~= Seq::<(Seq<char>, Seq<char>)>::empty());
        assert(w.first() == p);
        assert(spec_upsert_all(spec_upsert(caps, p.0, p.1), w.drop_first()) == spec_upsert(
            caps,
            p.0,
            p.1,
        ));
    } else {
        let stepped = spec_upsert(caps, params.first().0, params.first().1);
        assert(w.first() == params.first());
        assert(w.drop_first() =~= params.drop_first().push(p));
        lemma_upsert_all_push(stepped, params.drop_first(), p);
        assert(spec_upsert_all(caps, w) == spec_upsert_all(stepped, w.drop_first()));
        assert(spec_upsert_all(caps, params) == spec_upsert_all(stepped, params.drop_first()));
    }
}

/// The dispatcher: the configured topics, the conversation manager, and
/// the directory generated audio files go to.
pub struct Dispatcher {
    pub topics: TopicConfig,
    pub tmp_dir: String,
    pub chat: Chat,
}

impl Dispatcher {
    /// The dispatcher's state invariant: the manager's.
    pub open spec fn wf(&self) -> bool {
        self.chat.wf()
    }

    /// A dispatcher over the given topics and manager.
    pub fn new(topics: TopicConfig, tmp_dir: String, chat: Chat) -> (r: Dispatcher)
        requires
            chat.wf(),
        ensures
            r.wf(),
            r.topics == topics,
            r.tmp_dir == tmp_dir,
            r.chat == chat,
    {
        Dispatcher { topics, tmp_dir, chat }
    }

    /// Routes one inbound message and applies what can be decided
    /// without a provider: exactly one of the plans, or the error that
    /// names why the message was dropped.
    pub fn dispatch(&mut self, topic: &String, msg: &InboundMessage) -> (r: Result<
        DispatchPlan,
        DispatchError,
    >)
        requires
            old(self).wf(),
        ensures
            final(self).wf(),
            final(self).topics == old(self).topics,
            final(self).tmp_dir == old(self).tmp_dir,
            spec_route(old(self).topics, topic@) is Unknown ==> (r matches Err(
                DispatchError::UnknownTopic,
            ) && *final(self) == *old(self)),
            spec_route(old(self).topics, topic@) is Chat && msg.message_type != MessageType::Text
                ==> (r matches Err(DispatchError::UnsupportedMessageType) && *final(self) == *old(
                self,
            )),
            spec_route(old(self).topics, topic@) is Chat && msg.message_type == MessageType::Text
                ==> {
                &&& (r matches Ok(DispatchPlan::ChatCall { user, request }) && user@
                    == msg.sender@ && request.deep_view() == seq![
                    spec_system_turn(old(self).chat.spec_intro(), old(self).chat.caps()),
                ] + final(self).chat.spec_history(msg.sender@))
                &&& final(self).chat.spec_history(msg.sender@) == old(self).chat.spec_history(
                    msg.sender@,
                ).push(TurnV { role: Role::User, content: msg.text@ })
                &&& forall|u2: Seq<char>|
                    u2 != msg.sender@ ==> #[trigger] final(self).chat.spec_history(u2) == old(
                        self,
                    ).chat.spec_history(u2)
                &&& forall|u2: Seq<char>|
                    #[trigger] final(self).chat.spec_contains(u2) <==> old(self).chat.spec_contains(
                        u2,
                    ) || u2 == msg.sender@
                &&& final(self).chat.caps() == old(self).chat.caps()
                &&& final(self).chat.spec_intro() == old(self).chat.spec_intro()
                &&& final(self).chat.spec_model() == old(self).chat.spec_model()
            },
            spec_route(old(self).topics, topic@) is ChatDebug ==> *final(self) == *old(self) && (
            r matches Ok(DispatchPlan::Reply { message_type, text }) && message_type
                == MessageType::Text && text@ == spec_listing(old(self).chat.caps())),
            spec_route(old(self).topics, topic@) is InfoResponse ==> {
                &&& r matches Ok(DispatchPlan::Updated)
                &&& final(self).chat.caps() == spec_upsert_all(
                    old(self).chat.caps(),
                    msg.params.deep_view(),
                )
                &&& forall|u2: Seq<char>|
                    #[trigger] final(self).chat.spec_history(u2) == old(self).chat.spec_history(
                        u2,
                    )
                &&& forall|u2: Seq<char>|
                    #[trigger] final(self).chat.spec_contains(u2) == old(self).chat.spec_contains(
                        u2,
                    )
                &&& final(self).chat.spec_intro() == old(self).chat.spec_intro()
                &&& final(self).chat.spec_model() == old(self).chat.spec_model()
            },
            spec_route(old(self).topics, topic@) is Stt ==> *final(self) == *old(self) && (
            if msg.message_type == MessageType::Audio {
                r matches Ok(DispatchPlan::Transcribe { file }) && file@ == msg.text@
            } else {
                r matches Ok(DispatchPlan::Reply { message_type, text }) && message_type
                    == msg.message_type && text@ == msg.text@
            }),
            spec_route(old(self).topics, topic@) is Tts ==> *final(self) == *old(self) && (
            r matches Ok(DispatchPlan::Synthesize { text, output_path }) && text@ == msg.text@
                && exists|id: Seq<char>|
                id.len() == 36 && output_path@ == spec_audio_path(old(self).tmp_dir@, id)),
    {
        let route = self.topics.route(topic);
        match route {
            Route::Chat => {
                if msg.message_type != MessageType::Text {
                    return Err(DispatchError::UnsupportedMessageType);
                }
                let request = self.chat.begin_exchange(&msg.sender, msg.text.clone());
                Ok(DispatchPlan::ChatCall { user: msg.sender.clone(), request })
            },
            Route::ChatDebug => {
                let text = self.chat.capability_listing();
                Ok(DispatchPlan::Reply { message_type: MessageType::Text, text })
            },
            Route::InfoResponse => {
                let mut i: usize = 0;
                while i < msg.params.len()
                    invariant
                        i <= msg.params@.len(),
                        self.wf(),
                        self.topics == old(self).topics,
                        self.tmp_dir == old(self).tmp_dir,
                        self.chat.caps() == spec_upsert_all(
                            old(self).chat.caps(),
                            msg.params.deep_view().take(i as int),
                        ),
                        forall|u2: Seq<char>|
                            #[trigger] self.chat.spec_history(u2) == old(self).chat.spec_history(
                                u2,
                            ),
                        forall|u2: Seq<char>|
                            #[trigger] self.chat.spec_contains(u2) == old(self).chat.spec_contains(
                                u2,
                            ),
                        self.chat.spec_intro() == old(self).chat.spec_intro(),
                        self.chat.spec_model() == old(self).chat.spec_model(),
                    decreases msg.params@.len() - i,
                {
                    self.chat.update_capability(
                        msg.params[i].0.as_str(),
                        msg.params[i].1.as_str(),
                    );
                    proof {
                        let pre = msg.params.deep_view().take(i as int);
                        assert(msg.params.deep_view().take(i + 1) =~= pre.push(
                            msg.params.deep_view()[i as int],
                        ));
                        lemma_upsert_all_push(
                            old(self).chat.caps(),
                            pre,
                            msg.params.deep_view()[i as int],
                        );
                    }
                    i = i + 1;
                }
                proof {
                    assert(msg.params.deep_view().take(msg.params@.len() as int)
                        =~= msg.params.deep_view());
                }
                Ok(DispatchPlan::Updated)
            },
            Route::Stt => {
                if msg.message_type == MessageType::Audio {
                    Ok(DispatchPlan::Transcribe { file: msg.text.clone() })
                } else {
                    Ok(
                        DispatchPlan::Reply {
                            message_type: msg.message_type,
                            text: msg.text.clone(),
                        },
                    )
                }
            },
            Route::Tts => {
                let id = fresh_audio_id();
                let ghost idv = id@;
                let mut path = self.tmp_dir.clone();
                path.append("/");
                path.append(id.as_str());
                path.append(".mp3");
                proof {
                    assert(path@ == spec_audio_path(self.tmp_dir@, idv));
                }
                Ok(DispatchPlan::Synthesize { text: msg.text.clone(), output_path: path })
            },
            Route::Unknown => Err(DispatchError::UnknownTopic),
        }
    }
}

} // verus!
