//! Records of sampling requests (`sampling/createMessage`) made by target servers.
use vstd::prelude::*;
use crate::models::json::{JsonFloat, JsonNumber};
use crate::text::{copy_string, opt_str};

verus! {

/// Outcome of a sampling request.
#[derive(PartialEq, Eq, Structural, Clone, Copy, Debug)]
pub enum SamplingStatus {
    Pending,
    Success,
    Failed,
}

/// Content of a sampling message.
pub struct SamplingContent {
    pub content_type: String,
    pub text: Option<String>,
}

/// One message of a sampling request.
pub struct SamplingMessage {
    pub role: String,
    pub content: SamplingContent,
}

/// A model hint of a sampling request.
pub struct ModelHint {
    pub name: Option<String>,
}

/// Model preferences of a sampling request; the priorities are the JSON
/// numbers as the request gave them.
pub struct ModelPreferences {
    pub hints: Option<Vec<ModelHint>>,
    pub cost_priority: Option<JsonNumber>,
    pub speed_priority: Option<JsonNumber>,
    pub intelligence_priority: Option<JsonNumber>,
}

/// One logged sampling request. Its `id` has the form `server:timestamp`.
pub struct SamplingLogEntry {
    pub id: String,
    pub timestamp: String,
    pub status: SamplingStatus,
    pub messages: Vec<SamplingMessage>,
    pub model_preferences: Option<ModelPreferences>,
    pub system_prompt: Option<String>,
    pub max_tokens: Option<u32>,
    pub error: Option<String>,
    pub response: Option<String>,
}

// ---------------------------------------------------------------------------
// Views
// ---------------------------------------------------------------------------

pub struct SamplingMessageView {
    pub role: Seq<char>,
    pub content_type: Seq<char>,
    pub text: Option<Seq<char>>,
}

/// The mathematical content of a JSON number.
pub enum NumberView {
    PosInt(u64),
    NegInt(i64),
    Float(u64, Seq<char>),
}

pub struct ModelPreferencesView {
    pub hints: Option<Seq<Option<Seq<char>>>>,
    pub cost_priority: Option<NumberView>,
    pub speed_priority: Option<NumberView>,
    pub intelligence_priority: Option<NumberView>,
}

/// The mathematical content of a [`SamplingLogEntry`].
pub struct SamplingLogEntryView {
    pub id: Seq<char>,
    pub timestamp: Seq<char>,
    pub status: SamplingStatus,
    pub messages: Seq<SamplingMessageView>,
    pub model_preferences: Option<ModelPreferencesView>,
    pub system_prompt: Option<Seq<char>>,
    pub max_tokens: Option<u32>,
    pub error: Option<Seq<char>>,
    pub response: Option<Seq<char>>,
}

/// The view of a JSON number.
pub open spec fn number_view(n: JsonNumber) -> NumberView {
    match n {
        JsonNumber::PosInt(u) => NumberView::PosInt(u),
        JsonNumber::NegInt(i) => NumberView::NegInt(i),
        JsonNumber::Float(f) => NumberView::Float(f.bits, f.text@),
    }
}

/// The view of an optional JSON number.
pub open spec fn f64_view(f: Option<JsonNumber>) -> Option<NumberView> {
    match f {
        Some(x) => Some(number_view(x)),
        None => None,
    }
}

impl View for SamplingMessage {
    type V = SamplingMessageView;

    open spec fn view(&self) -> SamplingMessageView {
        SamplingMessageView {
            role: self.role@,
            content_type: self.content.content_type@,
            text: opt_str(self.content.text),
        }
    }
}

pub open spec fn hints_view(h: Option<Vec<ModelHint>>) -> Option<Seq<Option<Seq<char>>>> {
    match h {
        Some(v) => Some(Seq::new(v@.len(), |i: int| opt_str(v@[i].name))),
        None => None,
    }
}

impl View for ModelPreferences {
    type V = ModelPreferencesView;

    open spec fn view(&self) -> ModelPreferencesView {
        ModelPreferencesView {
            hints: hints_view(self.hints),
            cost_priority: f64_view(self.cost_priority),
            speed_priority: f64_view(self.speed_priority),
            intelligence_priority: f64_view(self.intelligence_priority),
        }
    }
}

impl View for SamplingLogEntry {
    type V = SamplingLogEntryView;

    open spec fn view(&self) -> SamplingLogEntryView {
        SamplingLogEntryView {
            id: self.id@,
            timestamp: self.timestamp@,
            status: self.status,
            messages: Seq::new(self.messages@.len(), |i: int| self.messages@[i]@),
            model_preferences: match self.model_preferences {
                Some(p) => Some(p@),
                None => None,
            },
            system_prompt: opt_str(self.system_prompt),
            max_tokens: self.max_tokens,
            error: opt_str(self.error),
            response: opt_str(self.response),
        }
    }
}

/// The views of a sequence of entries.
pub open spec fn entries_view(s: Seq<SamplingLogEntry>) -> Seq<SamplingLogEntryView> {
    Seq::new(s.len(), |i: int| s[i]@)
}

// ---------------------------------------------------------------------------
// Copies
// ---------------------------------------------------------------------------

/// A copy of an optional string.
pub fn copy_opt_string(s: &Option<String>) -> (r: Option<String>)
    ensures
        opt_str(r) == opt_str(*s),
{
    match s {
        Some(x) => Some(copy_string(x)),
        None => None,
    }
}

/// A copy of a JSON number.
pub fn copy_number(n: &JsonNumber) -> (r: JsonNumber)
    ensures
        number_view(r) == number_view(*n),
{
    match n {
        JsonNumber::PosInt(u) => JsonNumber::PosInt(*u),
        JsonNumber::NegInt(i) => JsonNumber::NegInt(*i),
        JsonNumber::Float(f) => JsonNumber::Float(JsonFloat { bits: f.bits, text: copy_string(&f.text) }),
    }
}

fn copy_f64(f: &Option<JsonNumber>) -> (r: Option<JsonNumber>)
    ensures
        f64_view(r) == f64_view(*f),
{
    match f {
        Some(x) => Some(copy_number(x)),
        None => None,
    }
}

impl SamplingMessage {
    /// A copy of the message.
    pub fn duplicate(&self) -> (r: SamplingMessage)
        ensures
            r@ == self@,
    {
        SamplingMessage {
            role: copy_string(&self.role),
            content: SamplingContent {
                content_type: copy_string(&self.content.content_type),
                text: copy_opt_string(&self.content.text),
            },
        }
    }
}

impl ModelPreferences {
    /// A copy of the preferences.
    pub fn duplicate(&self) -> (r: ModelPreferences)
        ensures
            r@ == self@,
    {
        let hints = match &self.hints {
            Some(v) => {
                let mut out: Vec<ModelHint> = Vec::new();
                let mut i: usize = 0;
                while i < v.len()
                    invariant
                        i <= v.len(),
                        out@.len() == i,
                        forall|j: int| 0 <= j < i ==> opt_str(#[trigger] out@[j].name) == opt_str(v@[j].name),
                    decreases v.len() - i,
                {
                    out.push(ModelHint { name: copy_opt_string(&v[i].name) });
                    i = i + 1;
                }
                assert(hints_view(Some(out)) =~= hints_view(self.hints));
                Some(out)
            },
            None => None,
        };
        ModelPreferences {
            hints,
            cost_priority: copy_f64(&self.cost_priority),
            speed_priority: copy_f64(&self.speed_priority),
            intelligence_priority: copy_f64(&self.intelligence_priority),
        }
    }
}

impl SamplingLogEntry {
    /// A copy of the entry.
    pub fn duplicate(&self) -> (r: SamplingLogEntry)
        ensures
            r@ == self@,
    {
        let mut messages: Vec<SamplingMessage> = Vec::new();
        let mut i: usize = 0;
        while i < self.messages.len()
            invariant
                i <= self.messages.len(),
                messages@.len() == i,
                forall|j: int| 0 <= j < i ==> (#[trigger] messages@[j])@ == self.messages@[j]@,
            decreases self.messages.len() - i,
        {
            messages.push(self.messages[i].duplicate());
            i = i + 1;
        }
        let model_preferences = match &self.model_preferences {
            Some(p) => Some(p.duplicate()),
            None => None,
        };
        let r = SamplingLogEntry {
            id: copy_string(&self.id),
            timestamp: copy_string(&self.timestamp),
            status: self.status,
            messages,
            model_preferences,
            system_prompt: copy_opt_string(&self.system_prompt),
            max_tokens: self.max_tokens,
            error: copy_opt_string(&self.error),
            response: copy_opt_string(&self.response),
        };
        assert(r@.messages =~= self@.messages);
        r
    }
}

} // verus!
