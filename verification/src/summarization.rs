//! What the interface is told about summary templates, providers and
//! models, and how the model list is settled.

use vstd::prelude::*;

use crate::snippets::{copy_strings, texts};
use crate::text::{chars_of, same_chars, trimmed, trim};

verus! {

/// A summary template: its id and its label.
pub struct TemplateInfo {
    pub id: String,
    pub label: String,
}

/// What the provider catalogue says of one provider; `kind` is the name of
/// the protocol it is spoken to by, as the interface reads it.
pub struct ProviderInfo {
    pub id: String,
    pub display_name: String,
    pub kind: String,
    pub default_base_url: String,
    pub default_model: String,
    pub needs_api_key: bool,
    pub base_url_editable: bool,
    pub secret_kind: Option<String>,
    pub suggested_models: Vec<String>,
}

/// A provider as the interface reads it.
pub struct ProviderDto {
    pub id: String,
    pub display_name: String,
    pub kind: String,
    pub default_base_url: String,
    pub default_model: String,
    pub needs_api_key: bool,
    pub base_url_editable: bool,
    pub secret_kind: Option<String>,
    pub suggested_models: Vec<String>,
}

/// Optional texts by their views.
pub open spec fn opt_view(o: Option<String>) -> Option<Seq<char>> {
    match o {
        Some(s) => Some(s@),
        None => None,
    }
}

fn copy_opt(o: &Option<String>) -> (r: Option<String>)
    ensures
        opt_view(r) == opt_view(*o),
{
    match o {
        Some(s) => Some(s.clone()),
        None => None,
    }
}

impl ProviderDto {
    /// The provider as the interface reads it, as the catalogue has it.
    pub fn from(p: &ProviderInfo) -> (r: ProviderDto)
        ensures
            r.id@ == p.id@,
            r.display_name@ == p.display_name@,
            r.kind@ == p.kind@,
            r.default_base_url@ == p.default_base_url@,
            r.default_model@ == p.default_model@,
            r.needs_api_key == p.needs_api_key,
            r.base_url_editable == p.base_url_editable,
            opt_view(r.secret_kind) == opt_view(p.secret_kind),
            texts(r.suggested_models@) == texts(p.suggested_models@),
    {
        ProviderDto {
            id: p.id.clone(),
            display_name: p.display_name.clone(),
            kind: p.kind.clone(),
            default_base_url: p.default_base_url.clone(),
            default_model: p.default_model.clone(),
            needs_api_key: p.needs_api_key,
            base_url_editable: p.base_url_editable,
            secret_kind: copy_opt(&p.secret_kind),
            suggested_models: copy_strings(&p.suggested_models),
        }
    }
}

/// The catalogue's models of a provider.
pub fn catalog_models(info: &ProviderInfo) -> (r: Vec<String>)
    ensures
        texts(r@) == texts(info.suggested_models@),
{
    copy_strings(&info.suggested_models)
}

/// The models a provider offers, whether the list came from the provider
/// just now (not the catalogue), and the model kept selected.
pub struct LiveModelsDto {
    pub models: Vec<String>,
    pub live: bool,
    pub selected: String,
}

/// The answer when nothing could be asked: no models, none selected.
pub fn no_live_models() -> (r: LiveModelsDto)
    ensures
        r.models@.len() == 0,
        !r.live,
        r.selected@.len() == 0,
{
    LiveModelsDto { models: Vec::new(), live: false, selected: String::new() }
}

/// The address Ollama is asked at: the configured one, else the local
/// default.
pub fn ollama_url(configured: &str) -> (r: String)
    ensures
        r@ == (if trimmed(configured@).len() == 0 {
            "http://127.0.0.1:11434"@
        } else {
            configured@
        }),
{
    if trim(&chars_of(configured)).len() == 0 {
        String::from_str("http://127.0.0.1:11434")
    } else {
        String::from_str(configured)
    }
}

/// The base address a provider is asked at: the configured one, else the
/// provider's default.
pub fn base_url_or(configured: &str, default_url: &str) -> (r: String)
    ensures
        r@ == (if trimmed(configured@).len() == 0 {
            default_url@
        } else {
            configured@
        }),
{
    if trim(&chars_of(configured)).len() == 0 {
        String::from_str(default_url)
    } else {
        String::from_str(configured)
    }
}

/// The model list: the provider's own when it answered with some, else the
/// catalogue's; and whether it was the provider's.
pub fn resolved_models(live: Option<Vec<String>>, fallback: Vec<String>) -> (r: (Vec<String>, bool))
    ensures
        match live {
            Some(m) => if m@.len() > 0 {
                texts(r.0@) == texts(m@) && r.1
            } else {
                texts(r.0@) == texts(fallback@) && !r.1
            },
            None => texts(r.0@) == texts(fallback@) && !r.1,
        },
{
    match live {
        Some(m) => if m.len() > 0 {
            (m, true)
        } else {
            (fallback, false)
        },
        None => (fallback, false),
    }
}

/// Must the selected model be saved? Only when it is not the configured one.
pub fn model_changed(configured: &str, selected: &str) -> (r: bool)
    ensures
        r == (configured@ != selected@),
{
    !same_chars(&chars_of(configured), &chars_of(selected))
}

} // verus!
