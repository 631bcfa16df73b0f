//! Safety transforms applied to an outgoing backend request.
//!
//! The pipeline runs over [`RequestPayload`], a plain-value image of the
//! JSON body: the fields the transforms read and write, lifted out of the
//! document. The caller owns the document itself and copies any changed
//! field back after the pipeline has run.

use vstd::prelude::*;
use vstd::string::StringExecFns;

use crate::model_metadata::ModelMetadata;
use crate::text::str_eq;

verus! {

/// The fields of a request body that the transforms inspect or change.
#[derive(Clone, Copy, Debug)]
pub struct RequestPayload {
    /// The body has a `messages` array, so it is chat-shaped.
    pub is_chat: bool,
    /// The body has an `options` object.
    pub has_options: bool,
    /// Top-level `max_tokens`.
    pub max_tokens: Option<u32>,
    /// `options.num_predict`.
    pub num_predict: Option<u32>,
    /// `options.num_ctx`.
    pub options_num_ctx: Option<u64>,
    /// Top-level `num_ctx`.
    pub top_num_ctx: Option<u64>,
}

/// The binding cap on context size: the smaller of the model's trained
/// context length and the configured override.
pub open spec fn spec_effective_context(n_ctx_train: u32, max_context_override: u32) -> u32 {
    if n_ctx_train <= max_context_override {
        n_ctx_train
    } else {
        max_context_override
    }
}

/// Runtime counterpart of [`spec_effective_context`].
pub fn effective_context(n_ctx_train: u32, max_context_override: u32) -> (r: u32)
    ensures
        r == spec_effective_context(n_ctx_train, max_context_override),
{
    if n_ctx_train <= max_context_override {
        n_ctx_train
    } else {
        max_context_override
    }
}

/// The generation-limit transform fires on chat-shaped payloads that do
/// not set `options.num_predict` yet.
pub open spec fn spec_num_predict_applies(p: RequestPayload) -> bool {
    p.is_chat && p.num_predict is None
}

/// The generation limit the transform writes: the requested `max_tokens`,
/// or 4096 when the client asked for no limit.
pub open spec fn spec_num_predict_value(p: RequestPayload) -> u32 {
    match p.max_tokens {
        Some(t) => t,
        None => 4096,
    }
}

/// The payload after the generation-limit transform.
pub open spec fn spec_apply_num_predict(p: RequestPayload) -> RequestPayload {
    if spec_num_predict_applies(p) {
        RequestPayload { num_predict: Some(spec_num_predict_value(p)), has_options: true, ..p }
    } else {
        p
    }
}

/// Keeps generation bounded: chat requests without a generation limit get
/// `options.num_predict` set to the requested `max_tokens`, or to 4096.
pub struct NumPredictModifier;

impl NumPredictModifier {
    /// Applies the generation-limit transform, as
    /// [`spec_apply_num_predict`] states, and reports whether the payload
    /// changed.
    pub fn modify(
        &self,
        payload: &mut RequestPayload,
        _metadata: &ModelMetadata,
        _max_context_override: u32,
    ) -> (modified: bool)
        ensures
            *final(payload) == spec_apply_num_predict(*old(payload)),
            modified == spec_num_predict_applies(*old(payload)),
    {
        if !payload.is_chat {
            return false;
        }
        if payload.num_predict.is_some() {
            return false;
        }
        let tokens: u32 = match payload.max_tokens {
            Some(t) => t,
            None => 4096,
        };
        payload.num_predict = Some(tokens);
        payload.has_options = true;
        true
    }

    /// The transform's display name.
    pub fn name(&self) -> (r: &'static str)
        ensures
            r@ == "NumPredictModifier"@,
    {
        "NumPredictModifier"
    }
}

/// The context-limit transform skips writing a default only for
/// non-chat models whose effective cap would pass the trained length;
/// with the cap being a minimum this never holds, so the write happens
/// for every model class.
pub open spec fn spec_should_set_ctx(meta: ModelMetadata, eff: u32) -> bool {
    meta.model_type@ == "chat"@ || eff <= meta.n_ctx_train
}

/// The payload after the context-limit transform.
///
/// A present `options.num_ctx` or top-level `num_ctx` above the effective
/// cap is clamped down to it. When neither slot is present and nothing
/// was clamped, `options.num_ctx` is set to the cap.
pub open spec fn spec_apply_context_limit(
    p: RequestPayload,
    meta: ModelMetadata,
    max_context_override: u32,
) -> RequestPayload {
    let eff = spec_effective_context(meta.n_ctx_train, max_context_override);
    let clamp_options = p.options_num_ctx matches Some(v) && v > eff as u64;
    let clamp_top = p.top_num_ctx matches Some(v) && v > eff as u64;
    let p1 = if clamp_options {
        RequestPayload { options_num_ctx: Some(eff as u64), ..p }
    } else {
        p
    };
    let p2 = if clamp_top {
        RequestPayload { top_num_ctx: Some(eff as u64), ..p1 }
    } else {
        p1
    };
    if !clamp_options && !clamp_top && p2.top_num_ctx is None && p2.options_num_ctx is None
        && spec_should_set_ctx(meta, eff) {
        RequestPayload { options_num_ctx: Some(eff as u64), has_options: true, ..p2 }
    } else {
        p2
    }
}

/// Whether the context-limit transform changes the payload.
pub open spec fn spec_context_limit_modified(
    p: RequestPayload,
    meta: ModelMetadata,
    max_context_override: u32,
) -> bool {
    let eff = spec_effective_context(meta.n_ctx_train, max_context_override);
    ||| p.options_num_ctx matches Some(v) && v > eff as u64
    ||| p.top_num_ctx matches Some(v) && v > eff as u64
    ||| (p.top_num_ctx is None && p.options_num_ctx is None && spec_should_set_ctx(meta, eff))
}

/// Advisory severity of a context size, informational only.
#[derive(Clone, Copy, Debug, PartialEq, Eq, Structural)]
pub enum ContextSeverity {
    /// Above 100,000 tokens: very likely to stall.
    Critical,
    /// Above 60,000 tokens: may stall.
    Warning,
    /// Above 32,000 tokens: slow responses expected.
    Caution,
    /// Above 16,384 tokens: moderate, should work.
    Informational,
    /// At most 16,384 tokens: nothing to say.
    Silent,
}

/// Caps `num_ctx` at the effective maximum the model and the configured
/// override allow, and writes that cap where no context size was asked.
pub struct ContextLimitModifier;

impl ContextLimitModifier {
    /// Applies the context-limit transform, as
    /// [`spec_apply_context_limit`] states, and reports whether the
    /// payload changed.
    pub fn modify(
        &self,
        payload: &mut RequestPayload,
        metadata: &ModelMetadata,
        max_context_override: u32,
    ) -> (modified: bool)
        ensures
            *final(payload) == spec_apply_context_limit(*old(payload), *metadata, max_context_override),
            modified == spec_context_limit_modified(*old(payload), *metadata, max_context_override),
    {
        let eff = effective_context(metadata.n_ctx_train, max_context_override);
        let mut modified = false;
        match payload.options_num_ctx {
            Some(v) => {
                if v > eff as u64 {
                    payload.options_num_ctx = Some(eff as u64);
                    modified = true;
                }
            },
            None => {},
        }
        match payload.top_num_ctx {
            Some(v) => {
                if v > eff as u64 {
                    payload.top_num_ctx = Some(eff as u64);
                    modified = true;
                }
            },
            None => {},
        }
        if !modified && payload.top_num_ctx.is_none() && payload.options_num_ctx.is_none() {
            let should_set = str_eq(metadata.model_type.as_str(), "chat") || eff
                <= metadata.n_ctx_train;
            if should_set {
                payload.options_num_ctx = Some(eff as u64);
                payload.has_options = true;
                modified = true;
            }
        }
        modified
    }

    /// The transform's display name.
    pub fn name(&self) -> (r: &'static str)
        ensures
            r@ == "ContextLimitModifier"@,
    {
        "ContextLimitModifier"
    }

    /// Grades a context size on the advisory scale; the caller decides
    /// what, if anything, to log.
    pub fn warn_on_large_context(ctx_size: u32) -> (r: ContextSeverity)
        ensures
            r == ContextSeverity::Critical <==> ctx_size > 100000,
            r == ContextSeverity::Warning <==> (60000 < ctx_size <= 100000),
            r == ContextSeverity::Caution <==> (32000 < ctx_size <= 60000),
            r == ContextSeverity::Informational <==> (16384 < ctx_size <= 32000),
            r == ContextSeverity::Silent <==> ctx_size <= 16384,
    {
        if ctx_size > 100000 {
            ContextSeverity::Critical
        } else if ctx_size > 60000 {
            ContextSeverity::Warning
        } else if ctx_size > 32000 {
            ContextSeverity::Caution
        } else if ctx_size > 16384 {
            ContextSeverity::Informational
        } else {
            ContextSeverity::Silent
        }
    }
}

/// Whatever the payload held, after the context-limit transform every
/// context-size slot that is present sits at or below the effective cap:
/// no outgoing request asks the backend for more context than
/// `min(trainedContextLength, maxContextOverride)`.
pub proof fn lemma_context_limit_clamps(
    p: RequestPayload,
    meta: ModelMetadata,
    max_context_override: u32,
)
    ensures
        ({
            let q = spec_apply_context_limit(p, meta, max_context_override);
            let eff = spec_effective_context(meta.n_ctx_train, max_context_override);
            &&& q.options_num_ctx matches Some(v) ==> v <= eff as u64
            &&& q.top_num_ctx matches Some(v) ==> v <= eff as u64
        }),
{
}

/// A transform of the outgoing-request pipeline. The two the gateway
/// ships are [`NumPredictModifier`] and [`ContextLimitModifier`]; new
/// safety rules implement this and join [`apply_modifiers`].
pub trait ParameterModifier {
    /// Inspects the payload and possibly changes it, reporting whether it
    /// did.
    fn modify(
        &self,
        payload: &mut RequestPayload,
        metadata: &ModelMetadata,
        max_context_override: u32,
    ) -> bool;

    /// The transform's display name.
    fn name(&self) -> &'static str;
}

impl ParameterModifier for NumPredictModifier {
    fn modify(
        &self,
        payload: &mut RequestPayload,
        metadata: &ModelMetadata,
        max_context_override: u32,
    ) -> bool {
        NumPredictModifier::modify(self, payload, metadata, max_context_override)
    }

    fn name(&self) -> &'static str {
        NumPredictModifier::name(self)
    }
}

impl ParameterModifier for ContextLimitModifier {
    fn modify(
        &self,
        payload: &mut RequestPayload,
        metadata: &ModelMetadata,
        max_context_override: u32,
    ) -> bool {
        ContextLimitModifier::modify(self, payload, metadata, max_context_override)
    }

    fn name(&self) -> &'static str {
        ContextLimitModifier::name(self)
    }
}

/// The whole pipeline: first the generation limit, then the context
/// limit, in that fixed order.
pub open spec fn spec_apply_modifiers(
    p: RequestPayload,
    meta: ModelMetadata,
    max_context_override: u32,
) -> RequestPayload {
    spec_apply_context_limit(spec_apply_num_predict(p), meta, max_context_override)
}

/// Runs every transform of the pipeline over the payload, in order, as
/// [`spec_apply_modifiers`] states; reports whether any of them changed
/// it.
pub fn apply_modifiers(
    payload: &mut RequestPayload,
    metadata: &ModelMetadata,
    max_context_override: u32,
) -> (modified: bool)
    ensures
        *final(payload) == spec_apply_modifiers(*old(payload), *metadata, max_context_override),
        modified == {
            ||| spec_num_predict_applies(*old(payload))
            ||| spec_context_limit_modified(
                spec_apply_num_predict(*old(payload)),
                *metadata,
                max_context_override,
            )
        },
{
    let mut any = false;
    if NumPredictModifier.modify(payload, metadata, max_context_override) {
        any = true;
    }
    if ContextLimitModifier.modify(payload, metadata, max_context_override) {
        any = true;
    }
    any
}

} // verus!
