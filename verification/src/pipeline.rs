//! The pipeline orchestrator: a state machine that sequences
//! Translate → Edit → Filter → Summarize over each window, in strict order,
//! and accumulates the run's output.
//!
//! The machine performs no I/O. A driver asks it for the next chat call
//! (`next_call`), performs the HTTP exchange through the provider client, and
//! hands the reply text back to the matching `feed_*` method; for the local
//! backend it hands back the per-item bridge replies. Each `feed_*` moves the
//! phase strictly forward within the window (`phase_rank` grows), so every
//! window sees exactly one translate call and at most one edit, filter and
//! summarize call, whatever the window holds. No window starts before the
//! previous window's summary is in place: `advance` is the only step that
//! moves `pos`, and it is reachable only after Summarize (or after the last
//! stage of a window that skips it).

use vstd::prelude::*;
use crate::codec::{Codec, decode_translation, translate_reply_text};
use crate::config::{Edit, FilterConfig, Translate, TranslateEngine, spec_engine_window};
use crate::lang::Language;
use crate::provider::{
    ChatCall, LlmClient, LlmProviderConfig, base_url_view, api_key_view, spec_find_provider,
    spec_split_model, find_provider, split_model,
};
use crate::segment::{BatchItem, TranscriptSegment, TranslatedSegment, make_batch_items,
    window_slice};
use crate::stages::{
    build_translate_messages, build_edit_messages, build_filter_messages, build_summary_message,
    decode_filter_reply, apply_filter, apply_edit, map_window, next_summary, translate_schema,
    filter_schema, codec_wants_json, translate_system_prompt, translate_user_prompt,
    edit_system_prompt, edit_user_prompt, filter_user_prompt, filter_items_spec, summary_prompt,
    join_lines, edited_text, kept_segments, lemma_response_lookup, nonempty_count,
    assemble_local_results,
};
use crate::text::trim_spec;

verus! {

/// Where a window stands. The stages run in this order; `Advance` appends the
/// window's output and opens the next window.
#[derive(Clone, Copy, PartialEq, Eq, Structural, Debug)]
pub enum Phase {
    Translate,
    Edit,
    Filter,
    Summarize,
    Advance,
    Done,
}

/// The strict order of the phases within a window.
pub open spec fn phase_rank(p: Phase) -> int {
    match p {
        Phase::Translate => 0,
        Phase::Edit => 1,
        Phase::Filter => 2,
        Phase::Summarize => 3,
        Phase::Advance => 4,
        Phase::Done => 5,
    }
}

/// A fatal configuration error: a referenced provider id that no provider
/// carries. It aborts the run before any network call.
#[derive(Debug)]
pub enum PipelineError {
    ProviderNotFound(String),
}

/// The translation backend of a run.
pub enum Backend {
    /// A chat model behind a provider.
    Llm { client: LlmClient, model: String },
    /// The on-device bridge, called once per non-empty item.
    Local,
}

/// The resolved edit stage.
pub struct EditStage {
    pub client: LlmClient,
    pub model: String,
    pub instructions: Vec<String>,
}

/// The resolved filter stage.
pub struct FilterStage {
    pub client: LlmClient,
    pub model: String,
    pub filters: Vec<FilterConfig>,
}

/// Two provider configurations that configure the same provider.
pub open spec fn cfg_eq(a: LlmProviderConfig, b: LlmProviderConfig) -> bool {
    &&& a.id@ == b.id@
    &&& base_url_view(a) == base_url_view(b)
    &&& api_key_view(a) == api_key_view(b)
    &&& a.api_type == b.api_type
    &&& a.json_mode_type == b.json_mode_type
}

/// Whether a run configuration has an active edit stage: instructions are
/// present and non-empty.
pub open spec fn edit_active(e: Option<Edit>) -> bool {
    match e {
        Some(ed) => match ed.instructions {
            Some(ins) => ins.len() > 0,
            None => false,
        },
        None => false,
    }
}

/// Whether a run configuration has an active filter stage: conditions are
/// present and non-empty.
pub open spec fn filters_active(e: Option<Edit>) -> bool {
    match e {
        Some(ed) => match ed.filters {
            Some(fs) => fs.len() > 0,
            None => false,
        },
        None => false,
    }
}

/// The provider reference the filter stage uses: the first condition's
/// override, or the edit stage's default model.
pub open spec fn filter_ref(ed: Edit) -> Seq<char> {
    match ed.filters {
        Some(fs) => if fs.len() > 0 {
            match fs[0].llm {
                Some(s) => s@,
                None => ed.default_model@,
            }
        } else {
            ed.default_model@
        },
        None => ed.default_model@,
    }
}

/// Whether constructing a pipeline fails: some referenced provider id is not
/// configured. An unresolved filter override alone does not fail — it falls
/// back to the default provider.
pub open spec fn spec_new_fails(
    t: Translate,
    e: Option<Edit>,
    providers: Seq<LlmProviderConfig>,
) -> bool {
    ||| (match t.engine {
        TranslateEngine::LLM { model, .. } => spec_find_provider(
            providers,
            spec_split_model(model@).0,
        ) is None,
        TranslateEngine::Apple { .. } => false,
    })
    ||| (edit_active(e) && spec_find_provider(
        providers,
        spec_split_model(e->Some_0.default_model@).0,
    ) is None)
    ||| (filters_active(e) && spec_find_provider(
        providers,
        spec_split_model(filter_ref(e->Some_0)).0,
    ) is None && spec_find_provider(
        providers,
        spec_split_model(e->Some_0.default_model@).0,
    ) is None)
}

/// The pipeline orchestrator.
pub struct Pipeline {
    pub target: Language,
    pub source: Language,
    pub codec: Codec,
    pub window_size: usize,
    pub prepend: String,
    pub backend: Backend,
    pub edit: Option<EditStage>,
    pub filter: Option<FilterStage>,
    pub segments: Vec<TranscriptSegment>,
    pub pos: usize,
    pub summary: String,
    pub output: Vec<TranslatedSegment>,
    pub phase: Phase,
    pub window: Vec<TranscriptSegment>,
    pub items: Vec<BatchItem>,
    pub current: Vec<TranslatedSegment>,
}

impl Pipeline {
    /// The machine's invariant: the current window mirrors the segment
    /// sequence at `pos`, the items carry the shared id space `0..len`, and
    /// the working set's length is pinned per phase — full before and after
    /// Edit, never grown after Filter.
    pub open spec fn wf(self) -> bool {
        &&& self.window_size > 0
        &&& self.pos <= self.segments@.len()
        &&& (self.phase is Done ==> self.pos == self.segments@.len())
        &&& (!(self.phase is Done) ==> self.pos < self.segments@.len())
        &&& (!(self.phase is Done) ==> {
            &&& self.window@.len() == (if self.pos + self.window_size <= self.segments@.len() {
                self.window_size as int
            } else {
                self.segments@.len() - self.pos
            })
            &&& forall|i: int|
                0 <= i < self.window@.len() ==> (#[trigger] self.window@[i]).start
                    == self.segments@[self.pos + i].start && self.window@[i].end
                    == self.segments@[self.pos + i].end && self.window@[i].text@
                    == self.segments@[self.pos + i].text@
            &&& self.items@.len() == self.window@.len()
            &&& forall|i: int|
                0 <= i < self.items@.len() ==> (#[trigger] self.items@[i]).id == i
                    && self.items@[i].text@ == self.window@[i].text@
        })
        &&& (self.phase is Edit || self.phase is Filter ==> self.current@.len()
            == self.window@.len())
        &&& (self.phase is Summarize || self.phase is Advance ==> self.current@.len()
            <= self.window@.len())
        &&& (self.phase is Summarize ==> self.backend is Llm)
        &&& (self.phase is Edit ==> self.edit is Some)
        &&& (self.phase is Filter ==> self.filter is Some)
    }

    /// Builds a pipeline from the run configuration, resolving every
    /// referenced provider up front: a missing provider id is fatal before
    /// any network call.
    pub fn new(
        source: Language,
        translate_cfg: Translate,
        edit_cfg: Option<Edit>,
        providers: &Vec<LlmProviderConfig>,
        segments: Vec<TranscriptSegment>,
    ) -> (r: Result<Pipeline, PipelineError>)
        requires
            spec_engine_window(translate_cfg.engine) > 0,
        ensures
            r is Err <==> spec_new_fails(translate_cfg, edit_cfg, providers@),
            r matches Err(PipelineError::ProviderNotFound(id)) ==> spec_find_provider(
                providers@,
                id@,
            ) is None,
            r matches Ok(p) ==> {
                &&& p.wf()
                &&& p.pos == 0
                &&& p.output@.len() == 0
                &&& p.summary@ == "No context yet."@
                &&& p.segments@ == segments@
                &&& p.source == source
                &&& p.target == translate_cfg.target_lang
                &&& p.window_size == spec_engine_window(translate_cfg.engine)
                &&& (p.phase is Done <==> segments@.len() == 0)
                &&& (segments@.len() > 0 ==> p.phase is Translate)
                &&& (p.backend is Llm <==> translate_cfg.engine is LLM)
                &&& (match translate_cfg.engine {
                    TranslateEngine::LLM { model, system_prompt, codec, .. } => {
                        &&& p.codec == codec
                        &&& (p.backend matches Backend::Llm { client, model: m } ==> m@
                            == spec_split_model(model@).1 && cfg_eq(
                            client.provider,
                            providers@[spec_find_provider(
                                providers@,
                                spec_split_model(model@).0,
                            )->Some_0],
                        ))
                        &&& p.prepend@ == (match system_prompt {
                            Some(sp) => sp@,
                            None => Seq::<char>::empty(),
                        })
                    },
                    TranslateEngine::Apple { .. } => p.backend is Local,
                })
                &&& (p.edit is Some <==> edit_active(edit_cfg))
                &&& (p.edit matches Some(es) ==> {
                    &&& es.model@ == spec_split_model(edit_cfg->Some_0.default_model@).1
                    &&& cfg_eq(
                        es.client.provider,
                        providers@[spec_find_provider(
                            providers@,
                            spec_split_model(edit_cfg->Some_0.default_model@).0,
                        )->Some_0],
                    )
                    &&& es.instructions@ == edit_cfg->Some_0.instructions->Some_0@
                })
                &&& (p.filter is Some <==> filters_active(edit_cfg))
                &&& (p.filter matches Some(fs) ==> {
                    &&& fs.model@ == spec_split_model(filter_ref(edit_cfg->Some_0)).1
                    &&& fs.filters@ == edit_cfg->Some_0.filters->Some_0@
                    &&& (match spec_find_provider(
                        providers@,
                        spec_split_model(filter_ref(edit_cfg->Some_0)).0,
                    ) {
                        Some(i) => cfg_eq(fs.client.provider, providers@[i]),
                        None => cfg_eq(
                            fs.client.provider,
                            providers@[spec_find_provider(
                                providers@,
                                spec_split_model(edit_cfg->Some_0.default_model@).0,
                            )->Some_0],
                        ),
                    })
                })
            },
    {
        let window_size = translate_cfg.engine.window_size();
        let (backend, codec, prepend): (Backend, Codec, String) = match translate_cfg.engine {
            TranslateEngine::LLM { model, system_prompt, codec, .. } => {
                let (pid, mname) = split_model(model.as_str());
                let idx = match find_provider(providers, pid.as_str()) {
                    Some(i) => i,
                    None => {
                        return Err(PipelineError::ProviderNotFound(pid));
                    },
                };
                let client = LlmClient::new(providers[idx].clone_cfg());
                let prepend = match system_prompt {
                    Some(sp) => sp,
                    None => String::new(),
                };
                (Backend::Llm { client, model: mname }, codec, prepend)
            },
            TranslateEngine::Apple { .. } => (Backend::Local, Codec::TaggedLines, String::new()),
        };
        let edit: Option<EditStage> = match &edit_cfg {
            Some(ed) => match &ed.instructions {
                Some(ins) => {
                    if ins.len() > 0 {
                        let (eid, emodel) = split_model(ed.default_model.as_str());
                        let idx = match find_provider(providers, eid.as_str()) {
                            Some(i) => i,
                            None => {
                                return Err(PipelineError::ProviderNotFound(eid));
                            },
                        };
                        let client = LlmClient::new(providers[idx].clone_cfg());
                        let mut instructions: Vec<String> = Vec::new();
                        let mut i: usize = 0;
                        while i < ins.len()
                            invariant
                                0 <= i <= ins@.len(),
                                instructions@.len() == i,
                                forall|j: int|
                                    0 <= j < i ==> instructions@[j] == ins@[j],
                            decreases ins@.len() - i,
                        {
                            instructions.push(ins[i].clone());
                            i = i + 1;
                        }
                        proof {
                            assert(instructions@ =~= ins@);
                        }
                        Some(EditStage { client, model: emodel, instructions })
                    } else {
                        None
                    }
                },
                None => None,
            },
            None => None,
        };
        let filter: Option<FilterStage> = match &edit_cfg {
            Some(ed) => match &ed.filters {
                Some(fs) => {
                    if fs.len() > 0 {
                        let fref: String = match &fs[0].llm {
                            Some(s) => s.clone(),
                            None => ed.default_model.clone(),
                        };
                        let (fid, fmodel) = split_model(fref.as_str());
                        let idx = match find_provider(providers, fid.as_str()) {
                            Some(i) => i,
                            None => {
                                let (did, _dmodel) = split_model(ed.default_model.as_str());
                                match find_provider(providers, did.as_str()) {
                                    Some(i) => i,
                                    None => {
                                        return Err(PipelineError::ProviderNotFound(did));
                                    },
                                }
                            },
                        };
                        let client = LlmClient::new(providers[idx].clone_cfg());
                        let mut filters: Vec<FilterConfig> = Vec::new();
                        let mut i: usize = 0;
                        while i < fs.len()
                            invariant
                                0 <= i <= fs@.len(),
                                filters@.len() == i,
                                forall|j: int| 0 <= j < i ==> filters@[j] == fs@[j],
                            decreases fs@.len() - i,
                        {
                            filters.push(
                                FilterConfig {
                                    prompt: fs[i].prompt.clone(),
                                    threshold: fs[i].threshold,
                                    llm: match &fs[i].llm {
                                        Some(s) => Some(s.clone()),
                                        None => None,
                                    },
                                },
                            );
                            proof {
                                let a = filters@[i as int];
                                let b = fs@[i as int];
                                assert(a.prompt == b.prompt);
                                assert(a.threshold == b.threshold);
                                assert(a.llm == b.llm);
                            }
                            i = i + 1;
                        }
                        proof {
                            assert(filters@ =~= fs@);
                        }
                        Some(FilterStage { client, model: fmodel, filters })
                    } else {
                        None
                    }
                },
                None => None,
            },
            None => None,
        };
        let n = segments.len();
        let (phase, window): (Phase, Vec<TranscriptSegment>) = if n == 0 {
            (Phase::Done, Vec::new())
        } else {
            (Phase::Translate, window_slice(&segments, 0, window_size))
        };
        let items = make_batch_items(&window);
        Ok(
            Pipeline {
                target: translate_cfg.target_lang,
                source,
                codec,
                window_size,
                prepend,
                backend,
                edit,
                filter,
                segments,
                pos: 0,
                summary: String::from_str("No context yet."),
                output: Vec::new(),
                phase,
                window,
                items,
                current: Vec::new(),
            },
        )
    }

    /// The phase the translate stage hands over to.
    pub open spec fn phase_after_translate(self) -> Phase {
        if self.edit is Some {
            Phase::Edit
        } else if self.filter is Some {
            Phase::Filter
        } else if self.backend is Llm {
            Phase::Summarize
        } else {
            Phase::Advance
        }
    }

    /// The phase the edit stage hands over to.
    pub open spec fn phase_after_edit(self) -> Phase {
        if self.filter is Some {
            Phase::Filter
        } else if self.backend is Llm {
            Phase::Summarize
        } else {
            Phase::Advance
        }
    }

    /// The phase the filter stage hands over to: the summary is skipped for
    /// the local backend and for a window the filter emptied.
    pub open spec fn phase_after_filter(self, new_len: int) -> Phase {
        if self.backend is Llm && new_len > 0 {
            Phase::Summarize
        } else {
            Phase::Advance
        }
    }

    /// Whether the run is complete.
    pub fn done(&self) -> (r: bool)
        ensures
            r == (self.phase is Done),
    {
        matches!(self.phase, Phase::Done)
    }

    /// The run's accumulated output.
    pub fn into_output(self) -> (r: Vec<TranslatedSegment>)
        ensures
            r@ == self.output@,
    {
        self.output
    }
}

impl Pipeline {
    /// The chat call of the current phase. Translate: the two translation
    /// messages over the current window and rolling summary, with the codec's
    /// JSON mode and schema. Edit: the editorial refinement of the working
    /// set. Filter: the single combined condition request, in JSON mode with
    /// the remove-ids schema. Summarize: the summary update, built from the
    /// rolling summary and this window's translated text alone.
    pub fn next_call(&self) -> (r: ChatCall)
        requires
            self.wf(),
            self.phase is Translate || self.phase is Edit || self.phase is Filter
                || self.phase is Summarize,
            self.phase is Translate ==> self.backend is Llm,
        ensures
            self.phase is Translate ==> {
                &&& r.messages@.len() == 2
                &&& r.messages@[0].role@ == "system"@
                &&& r.messages@[0].content@ == translate_system_prompt(
                    self.codec,
                    self.prepend@,
                    self.target.code(),
                )
                &&& r.messages@[1].role@ == "user"@
                &&& r.messages@[1].content@ == translate_user_prompt(
                    self.summary@,
                    crate::codec::payload(self.codec, self.items@),
                )
                &&& r.json_mode == codec_wants_json(self.codec)
                &&& crate::provider::schema_view(r) == (if self.codec is SchemaJson {
                    Some(crate::stages::translate_schema_spec())
                } else {
                    None
                })
                &&& (self.backend matches Backend::Llm { client, model } ==> r.model@ == model@
                    && cfg_eq(r.provider, client.provider))
            },
            self.phase is Edit ==> {
                &&& r.messages@.len() == 2
                &&& r.messages@[0].role@ == "system"@
                &&& r.messages@[0].content@ == edit_system_prompt(
                    self.target.code(),
                    join_lines(self.edit->Some_0.instructions@),
                )
                &&& r.messages@[1].role@ == "user"@
                &&& r.messages@[1].content@ == edit_user_prompt(self.current@)
                &&& r.json_mode == false
                &&& crate::provider::schema_view(r) is None
                &&& r.model@ == self.edit->Some_0.model@
                &&& cfg_eq(r.provider, self.edit->Some_0.client.provider)
            },
            self.phase is Filter ==> {
                &&& r.messages@.len() == 1
                &&& r.messages@[0].role@ == "user"@
                &&& r.messages@[0].content@ == filter_user_prompt(
                    self.filter->Some_0.filters@,
                    filter_items_spec(self.current@),
                )
                &&& r.json_mode == true
                &&& crate::provider::schema_view(r) == Some(crate::stages::filter_schema_spec())
                &&& r.model@ == self.filter->Some_0.model@
                &&& cfg_eq(r.provider, self.filter->Some_0.client.provider)
            },
            self.phase is Summarize ==> {
                &&& r.messages@.len() == 1
                &&& r.messages@[0].role@ == "user"@
                &&& r.messages@[0].content@ == summary_prompt(self.summary@, self.current@)
                &&& r.json_mode == false
                &&& crate::provider::schema_view(r) is None
                &&& (self.backend matches Backend::Llm { client, model } ==> r.model@ == model@
                    && cfg_eq(r.provider, client.provider))
            },
    {
        match self.phase {
            Phase::Translate => {
                let (client, model): (&LlmClient, &String) = match &self.backend {
                    Backend::Llm { client, model } => (client, model),
                    Backend::Local => vstd::pervasive::unreached(),
                };
                let messages = build_translate_messages(
                    self.codec,
                    &self.items,
                    self.target.as_str(),
                    self.prepend.as_str(),
                    self.summary.as_str(),
                );
                let schema: Option<String> = if matches!(self.codec, Codec::SchemaJson) {
                    Some(String::from_str(translate_schema()))
                } else {
                    None
                };
                let json_mode = matches!(self.codec, Codec::SchemaJson | Codec::BestEffortJson);
                client.begin(model.clone(), messages, json_mode, schema)
            },
            Phase::Edit => {
                let es = match &self.edit {
                    Some(es) => es,
                    None => vstd::pervasive::unreached(),
                };
                let messages = build_edit_messages(
                    &self.current,
                    &es.instructions,
                    self.target.as_str(),
                );
                es.client.begin(es.model.clone(), messages, false, None)
            },
            Phase::Filter => {
                let fs = match &self.filter {
                    Some(fs) => fs,
                    None => vstd::pervasive::unreached(),
                };
                let messages = build_filter_messages(&self.current, &fs.filters);
                fs.client.begin(
                    fs.model.clone(),
                    messages,
                    true,
                    Some(String::from_str(filter_schema())),
                )
            },
            _ => {
                let (client, model): (&LlmClient, &String) = match &self.backend {
                    Backend::Llm { client, model } => (client, model),
                    Backend::Local => vstd::pervasive::unreached(),
                };
                let messages = build_summary_message(self.summary.as_str(), &self.current);
                client.begin(model.clone(), messages, false, None)
            },
        }
    }

    /// Consumes the translate reply: the working set takes one segment per
    /// window item — timestamps and source text pass through, the text comes
    /// from the codec's tolerant decode with its per-item fallback. The
    /// output length equals the window length whatever the reply held.
    pub fn feed_translate(&mut self, content: &str)
        requires
            old(self).wf(),
            old(self).phase is Translate,
            old(self).backend is Llm,
        ensures
            final(self).wf(),
            final(self).phase == old(self).phase_after_translate(),
            phase_rank(final(self).phase) > phase_rank(old(self).phase),
            final(self).current@.len() == old(self).window@.len(),
            forall|i: int|
                0 <= i < final(self).current@.len() ==> {
                    &&& (#[trigger] final(self).current@[i]).start == old(self).window@[i].start
                    &&& final(self).current@[i].end == old(self).window@[i].end
                    &&& final(self).current@[i].original@ == old(self).window@[i].text@
                    &&& final(self).current@[i].translated@ == translate_reply_text(
                        old(self).codec,
                        content@,
                        old(self).items@,
                        i,
                    )
                },
            final(self).pos == old(self).pos,
            final(self).summary == old(self).summary,
            final(self).output == old(self).output,
            final(self).segments == old(self).segments,
            final(self).window == old(self).window,
            final(self).items == old(self).items,
            final(self).codec == old(self).codec,
            final(self).backend == old(self).backend,
            final(self).edit == old(self).edit,
            final(self).filter == old(self).filter,
            final(self).target == old(self).target,
            final(self).source == old(self).source,
            final(self).prepend == old(self).prepend,
            final(self).window_size == old(self).window_size,
    {
        let responses = decode_translation(self.codec, &self.items, content);
        let mapped = map_window(&self.window, &responses);
        proof {
            assert forall|i: int| 0 <= i < mapped@.len() implies (#[trigger] mapped@[i]).translated@
                == translate_reply_text(self.codec, content@, self.items@, i) by {
                lemma_response_lookup(responses@, self.window@[i].text@, i, 0);
            }
        }
        self.current = mapped;
        self.phase = if self.edit.is_some() {
            Phase::Edit
        } else if self.filter.is_some() {
            Phase::Filter
        } else if matches!(self.backend, Backend::Llm { .. }) {
            Phase::Summarize
        } else {
            Phase::Advance
        };
    }

    /// Consumes the local backend's per-item replies, one per non-empty item
    /// of the window, in window order (the driver obtains the inputs from
    /// [`crate::stages::texts_for_local`]). Empty source text short-circuits to an empty
    /// translation; the summary stage is skipped for this backend.
    pub fn feed_local(&mut self, replies: &Vec<String>)
        requires
            old(self).wf(),
            old(self).phase is Translate,
            old(self).backend is Local,
            replies@.len() == nonempty_count(old(self).items@),
        ensures
            final(self).wf(),
            final(self).phase == old(self).phase_after_translate(),
            phase_rank(final(self).phase) > phase_rank(old(self).phase),
            final(self).current@.len() == old(self).window@.len(),
            forall|i: int|
                0 <= i < final(self).current@.len() ==> {
                    &&& (#[trigger] final(self).current@[i]).start == old(self).window@[i].start
                    &&& final(self).current@[i].end == old(self).window@[i].end
                    &&& final(self).current@[i].original@ == old(self).window@[i].text@
                    &&& final(self).current@[i].translated@ == (if old(self).items@[i].text@.len()
                        == 0 {
                        Seq::<char>::empty()
                    } else {
                        replies@[nonempty_count(old(self).items@.take(i))]@
                    })
                },
            final(self).pos == old(self).pos,
            final(self).summary == old(self).summary,
            final(self).output == old(self).output,
            final(self).segments == old(self).segments,
            final(self).window == old(self).window,
            final(self).items == old(self).items,
            final(self).backend == old(self).backend,
            final(self).edit == old(self).edit,
            final(self).filter == old(self).filter,
    {
        let responses = assemble_local_results(&self.items, replies);
        let mapped = map_window(&self.window, &responses);
        proof {
            assert forall|i: int| 0 <= i < mapped@.len() implies (#[trigger] mapped@[i]).translated@
                == (if self.items@[i].text@.len() == 0 {
                Seq::<char>::empty()
            } else {
                replies@[nonempty_count(self.items@.take(i))]@
            }) by {
                lemma_response_lookup(responses@, self.window@[i].text@, i, 0);
            }
        }
        self.current = mapped;
        self.phase = if self.edit.is_some() {
            Phase::Edit
        } else if self.filter.is_some() {
            Phase::Filter
        } else {
            Phase::Advance
        };
    }

    /// Consumes the edit reply: position `i` takes line `i` of the reply and
    /// falls back to its prior text for unresolved positions; nothing is
    /// merged, split or reordered, and the length is preserved.
    pub fn feed_edit(&mut self, content: &str)
        requires
            old(self).wf(),
            old(self).phase is Edit,
        ensures
            final(self).wf(),
            final(self).phase == old(self).phase_after_edit(),
            phase_rank(final(self).phase) > phase_rank(old(self).phase),
            final(self).current@.len() == old(self).current@.len(),
            forall|i: int|
                0 <= i < final(self).current@.len() ==> {
                    &&& (#[trigger] final(self).current@[i]).start == old(self).current@[i].start
                    &&& final(self).current@[i].end == old(self).current@[i].end
                    &&& final(self).current@[i].original@ == old(self).current@[i].original@
                    &&& final(self).current@[i].translated@ == edited_text(
                        content@,
                        old(self).current@,
                        i,
                    )
                },
            final(self).pos == old(self).pos,
            final(self).summary == old(self).summary,
            final(self).output == old(self).output,
            final(self).segments == old(self).segments,
            final(self).window == old(self).window,
            final(self).items == old(self).items,
            final(self).backend == old(self).backend,
            final(self).edit == old(self).edit,
            final(self).filter == old(self).filter,
    {
        let edited = apply_edit(&self.current, content);
        self.current = edited;
        self.phase = if self.filter.is_some() {
            Phase::Filter
        } else if matches!(self.backend, Backend::Llm { .. }) {
            Phase::Summarize
        } else {
            Phase::Advance
        };
    }

    /// Consumes the filter reply: a decoded decision drops exactly the named
    /// positions; an undecodable decision fails open and keeps every segment.
    /// The working set never grows.
    pub fn feed_filter(&mut self, content: &str)
        requires
            old(self).wf(),
            old(self).phase is Filter,
        ensures
            final(self).wf(),
            final(self).phase == old(self).phase_after_filter(
                final(self).current@.len() as int,
            ),
            phase_rank(final(self).phase) > phase_rank(old(self).phase),
            final(self).current@.len() <= old(self).current@.len(),
            (match crate::json::parse_remove_ids_doc(crate::codec::cleaned(content@)) {
                Some(ids) => if crate::stages::ids_fit(ids) {
                    final(self).current@ == kept_segments(
                        old(self).current@,
                        ids,
                        old(self).current@.len() as int,
                    )
                } else {
                    final(self).current@ == old(self).current@
                },
                None => final(self).current@ == old(self).current@,
            }),
            final(self).pos == old(self).pos,
            final(self).summary == old(self).summary,
            final(self).output == old(self).output,
            final(self).segments == old(self).segments,
            final(self).window == old(self).window,
            final(self).items == old(self).items,
            final(self).backend == old(self).backend,
            final(self).edit == old(self).edit,
            final(self).filter == old(self).filter,
    {
        let decision = decode_filter_reply(content);
        let filtered = apply_filter(&self.current, &decision);
        proof {
            if decision is None {
                assert(filtered@ =~= self.current@);
            }
        }
        proof {
            let parsed = crate::json::parse_remove_ids_doc(crate::codec::cleaned(content@));
            if parsed is Some && !crate::stages::ids_fit(parsed->Some_0) {
                assert(decision is None);
            }
        }
        self.current = filtered;
        self.phase = if matches!(self.backend, Backend::Llm { .. }) && self.current.len() > 0 {
            Phase::Summarize
        } else {
            Phase::Advance
        };
    }

    /// Consumes the summary reply: the rolling summary becomes the trimmed
    /// reply of the request that `next_call` built from the prior summary and
    /// this window's translated text alone — no other state feeds it.
    pub fn feed_summary(&mut self, content: &str)
        requires
            old(self).wf(),
            old(self).phase is Summarize,
        ensures
            final(self).wf(),
            final(self).phase is Advance,
            phase_rank(final(self).phase) > phase_rank(old(self).phase),
            final(self).summary@ == trim_spec(content@),
            final(self).current == old(self).current,
            final(self).pos == old(self).pos,
            final(self).output == old(self).output,
            final(self).segments == old(self).segments,
            final(self).window == old(self).window,
            final(self).items == old(self).items,
            final(self).backend == old(self).backend,
            final(self).edit == old(self).edit,
            final(self).filter == old(self).filter,
    {
        let s = next_summary(content);
        self.summary = s;
        self.phase = Phase::Advance;
    }

    /// Closes the window: appends the working set to the run output, reports
    /// the window's segment count as one progress tick, and opens the next
    /// window — or ends the run after the last one.
    pub fn advance(&mut self) -> (ticks: usize)
        requires
            old(self).wf(),
            old(self).phase is Advance,
        ensures
            final(self).wf(),
            ticks == old(self).window@.len(),
            final(self).output@ == old(self).output@ + old(self).current@,
            final(self).pos == old(self).pos + old(self).window@.len(),
            final(self).summary == old(self).summary,
            final(self).segments == old(self).segments,
            final(self).backend == old(self).backend,
            final(self).edit == old(self).edit,
            final(self).filter == old(self).filter,
            (final(self).phase is Done <==> old(self).pos + old(self).window@.len()
                == old(self).segments@.len()),
            (!(final(self).phase is Done) ==> final(self).phase is Translate),
    {
        let ticks = self.window.len();
        let n = self.segments.len();
        proof {
            assert(self.pos + ticks <= n);
        }
        let mut i: usize = 0;
        while i < self.current.len()
            invariant
                0 <= i <= self.current@.len(),
                self.output@ == old(self).output@ + self.current@.take(i as int),
                self.current == old(self).current,
                self.segments == old(self).segments,
                self.window == old(self).window,
                self.items == old(self).items,
                self.pos == old(self).pos,
                self.summary == old(self).summary,
                self.backend == old(self).backend,
                self.edit == old(self).edit,
                self.filter == old(self).filter,
                self.target == old(self).target,
                self.source == old(self).source,
                self.codec == old(self).codec,
                self.prepend == old(self).prepend,
                self.window_size == old(self).window_size,
                self.phase == old(self).phase,
            decreases self.current@.len() - i,
        {
            let seg = self.current[i].clone_seg();
            self.output.push(seg);
            proof {
                assert(old(self).output@ + self.current@.take(i as int) + seq![
                    self.current@[i as int],
                ] =~= old(self).output@ + self.current@.take(i + 1 as int));
            }
            i = i + 1;
        }
        proof {
            assert(self.current@.take(self.current@.len() as int) =~= self.current@);
        }
        self.pos = self.pos + ticks;
        self.current = Vec::new();
        if self.pos < self.segments.len() {
            let w = window_slice(&self.segments, self.pos, self.window_size);
            let its = make_batch_items(&w);
            self.window = w;
            self.items = its;
            self.phase = Phase::Translate;
        } else {
            self.window = Vec::new();
            self.items = Vec::new();
            self.phase = Phase::Done;
        }
        ticks
    }
}

} // verus!

