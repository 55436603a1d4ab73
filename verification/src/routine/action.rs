//! Routine action types: lightweight LLM calls and full worker jobs.

use vstd::prelude::*;

use crate::json::{
    find_key_from, get_string_list, lemma_accessors_model, lemma_get_model, lemma_string_list_model,
    find_key_in_model, json_str_field, model_get, model_string_items, json_get, json_str, json_string_list, json_u64, string_items,
    JsonNumber, JsonValue, JsonView,
};
use crate::routine::{required_str_field, required_str_spec, RoutineError, RoutineErrorView};
use crate::text::{decimal, decimal_string, str_eq};

verus! {

/// Default output-token budget of a lightweight action.
pub const DEFAULT_MAX_TOKENS: u32 = 4096;

/// Default iteration budget of a full-job action.
pub const DEFAULT_MAX_ITERATIONS: u32 = 10;

/// Max output tokens (default: 4096).
pub fn default_max_tokens() -> (r: u32)
    ensures
        r == DEFAULT_MAX_TOKENS,
{
    DEFAULT_MAX_TOKENS
}

/// Max reasoning iterations (default: 10).
pub fn default_max_iterations() -> (r: u32)
    ensures
        r == DEFAULT_MAX_ITERATIONS,
{
    DEFAULT_MAX_ITERATIONS
}

/// What happens when a routine fires.
#[derive(Debug)]
pub enum RoutineAction {
    /// Single LLM call, no tools. Cheap and fast.
    Lightweight {
        /// The prompt sent to the LLM.
        prompt: String,
        /// Workspace paths to load as context.
        context_paths: Vec<String>,
        /// Max output tokens.
        max_tokens: u32,
    },
    /// Full multi-turn worker job with tool access.
    FullJob {
        /// Job title for the scheduler.
        title: String,
        /// Job description / initial prompt.
        description: String,
        /// Max reasoning iterations.
        max_iterations: u32,
        /// Tool names pre-authorized for `Always`-approval tools.
        tool_permissions: Vec<String>,
    },
}

/// Content of a routine action.
pub enum RoutineActionView {
    Lightweight { prompt: Seq<char>, context_paths: Seq<Seq<char>>, max_tokens: u32 },
    FullJob {
        title: Seq<char>,
        description: Seq<char>,
        max_iterations: u32,
        tool_permissions: Seq<Seq<char>>,
    },
}

/// Characters of each string.
pub open spec fn strings_model(v: Seq<String>) -> Seq<Seq<char>> {
    v.map_values(|s: String| s@)
}

impl RoutineAction {
    /// Content of this action.
    pub open spec fn model(self) -> RoutineActionView {
        match self {
            RoutineAction::Lightweight { prompt, context_paths, max_tokens } => {
                RoutineActionView::Lightweight {
                    prompt: prompt@,
                    context_paths: strings_model(context_paths@),
                    max_tokens,
                }
            },
            RoutineAction::FullJob { title, description, max_iterations, tool_permissions } => {
                RoutineActionView::FullJob {
                    title: title@,
                    description: description@,
                    max_iterations,
                    tool_permissions: strings_model(tool_permissions@),
                }
            },
        }
    }

    /// The string tag stored in the DB action_type column.
    pub fn type_tag(&self) -> (r: &'static str)
        ensures
            r@ == action_tag(self.model()),
    {
        match self {
            RoutineAction::Lightweight { .. } => "lightweight",
            RoutineAction::FullJob { .. } => "full_job",
        }
    }
}

/// The stored tag of an action kind.
pub open spec fn action_tag(a: RoutineActionView) -> Seq<char> {
    match a {
        RoutineActionView::Lightweight { .. } => "lightweight"@,
        RoutineActionView::FullJob { .. } => "full_job"@,
    }
}

/// A stored integer setting: the value of `key` when it is an unsigned
/// integer, else `default`, truncated to 32 bits.
pub open spec fn u32_setting(config: JsonValue, key: Seq<char>, default: u32) -> u32 {
    match json_u64(json_get(config, key)) {
        Some(x) => x as u32,
        None => default,
    }
}

/// The action stored with tag `action_type` and configuration `config`.
pub open spec fn action_from_db_spec(action_type: Seq<char>, config: JsonValue) -> Result<
    RoutineActionView,
    RoutineErrorView,
> {
    if action_type == "lightweight"@ {
        match required_str_spec(config, "lightweight action"@, "prompt"@) {
            Ok(prompt) => Ok(
                RoutineActionView::Lightweight {
                    prompt,
                    context_paths: json_string_list(config, "context_paths"@),
                    max_tokens: u32_setting(config, "max_tokens"@, DEFAULT_MAX_TOKENS),
                },
            ),
            Err(e) => Err(e),
        }
    } else if action_type == "full_job"@ {
        match required_str_spec(config, "full_job action"@, "title"@) {
            Ok(title) => match required_str_spec(config, "full_job action"@, "description"@) {
                Ok(description) => Ok(
                    RoutineActionView::FullJob {
                        title,
                        description,
                        max_iterations: u32_setting(
                            config,
                            "max_iterations"@,
                            DEFAULT_MAX_ITERATIONS,
                        ),
                        tool_permissions: json_string_list(config, "tool_permissions"@),
                    },
                ),
                Err(e) => Err(e),
            },
            Err(e) => Err(e),
        }
    } else {
        Err(RoutineErrorView::UnknownActionType { action_type })
    }
}

/// The model of an action result.
pub open spec fn action_result_model(r: Result<RoutineAction, RoutineError>) -> Result<
    RoutineActionView,
    RoutineErrorView,
> {
    match r {
        Ok(a) => Ok(a.model()),
        Err(e) => Err(e.model()),
    }
}

/// Reads a stored integer setting, truncating to 32 bits.
fn read_u32_setting(config: &JsonValue, key: &str, default: u32) -> (r: u32)
    ensures
        r == u32_setting(*config, key@, default),
{
    let v = match config.get(key) {
        Some(x) => x.as_u64(),
        None => None,
    };
    match v {
        Some(x) => x as u32,
        None => default,
    }
}

/// Copies a list of strings, relating it to a JSON string list.
fn string_list(config: &JsonValue, key: &str) -> (r: Vec<String>)
    ensures
        strings_model(r@) == json_string_list(*config, key@),
{
    let r = get_string_list(config, key);
    assert(strings_model(r@) =~= json_string_list(*config, key@));
    r
}

/// Parse a `tool_permissions` JSON array into a list of strings, skipping
/// non-string entries; empty when the member is missing or not an array.
pub fn parse_tool_permissions(value: &JsonValue) -> (r: Vec<String>)
    ensures
        strings_model(r@) == json_string_list(*value, "tool_permissions"@),
{
    string_list(value, "tool_permissions")
}

impl RoutineAction {
    /// Parse an action from its DB representation.
    pub fn from_db(action_type: &str, config: JsonValue) -> (r: Result<Self, RoutineError>)
        ensures
            action_result_model(r) == action_from_db_spec(action_type@, config),
    {
        if str_eq(action_type, "lightweight") {
            Self::lightweight_from_config(&config)
        } else if str_eq(action_type, "full_job") {
            Self::full_job_from_config(&config)
        } else {
            Err(RoutineError::UnknownActionType { action_type: action_type.to_owned() })
        }
    }

    /// Parse a `lightweight` action's config, defaulting optional fields.
    fn lightweight_from_config(config: &JsonValue) -> (r: Result<Self, RoutineError>)
        ensures
            action_result_model(r) == action_from_db_spec("lightweight"@, *config),
    {
        let prompt = match required_str_field(config, "lightweight action", "prompt") {
            Ok(p) => p,
            Err(e) => return Err(e),
        };
        let context_paths = string_list(config, "context_paths");
        let max_tokens = read_u32_setting(config, "max_tokens", default_max_tokens());
        Ok(RoutineAction::Lightweight { prompt, context_paths, max_tokens })
    }

    /// Parse a `full_job` action's config, defaulting optional fields.
    fn full_job_from_config(config: &JsonValue) -> (r: Result<Self, RoutineError>)
        ensures
            action_result_model(r) == action_from_db_spec("full_job"@, *config),
    {
        proof {
            reveal_strlit("full_job");
            reveal_strlit("lightweight");
            assert("full_job"@.len() == 8);
            assert("lightweight"@.len() == 11);
        }
        let title = match required_str_field(config, "full_job action", "title") {
            Ok(t) => t,
            Err(e) => return Err(e),
        };
        let description = match required_str_field(config, "full_job action", "description") {
            Ok(d) => d,
            Err(e) => return Err(e),
        };
        let max_iterations = read_u32_setting(config, "max_iterations", default_max_iterations());
        let tool_permissions = parse_tool_permissions(config);
        Ok(RoutineAction::FullJob { title, description, max_iterations, tool_permissions })
    }
}

/// JSON content of a list of strings.
pub open spec fn string_array_model(v: Seq<Seq<char>>) -> JsonView {
    JsonView::Array(v.map_values(|x: Seq<char>| JsonView::String(x)))
}

/// JSON content of an unsigned number.
pub open spec fn number_model(n: u64) -> JsonView {
    JsonView::Number(Some(n), decimal(n as nat))
}

/// The stored configuration of an action.
pub open spec fn action_config_model(a: RoutineActionView) -> JsonView {
    match a {
        RoutineActionView::Lightweight { prompt, context_paths, max_tokens } => JsonView::Object(
            seq![
                ("prompt"@, JsonView::String(prompt)),
                ("context_paths"@, string_array_model(context_paths)),
                ("max_tokens"@, number_model(max_tokens as u64)),
            ],
        ),
        RoutineActionView::FullJob { title, description, max_iterations, tool_permissions } =>
        JsonView::Object(
            seq![
                ("title"@, JsonView::String(title)),
                ("description"@, JsonView::String(description)),
                ("max_iterations"@, number_model(max_iterations as u64)),
                ("tool_permissions"@, string_array_model(tool_permissions)),
            ],
        ),
    }
}

/// A JSON unsigned number.
pub fn json_number(n: u64) -> (r: JsonValue)
    ensures
        r.model() == number_model(n),
{
    JsonValue::Number(JsonNumber { as_u64: Some(n), text: decimal_string(n) })
}

/// A JSON array of copies of `v`.
pub fn json_string_array(v: &Vec<String>) -> (r: JsonValue)
    ensures
        r.model() == string_array_model(strings_model(v@)),
{
    let mut items: Vec<JsonValue> = Vec::new();
    let n = v.len();
    let mut i: usize = 0;
    while i < n
        invariant
            n == v@.len(),
            i <= n,
            items@.len() == i,
            forall|k: int| 0 <= k < i ==> #[trigger] items@[k].model() == JsonView::String(v@[k]@),
        decreases n - i,
    {
        items.push(JsonValue::String(v[i].clone()));
        i = i + 1;
    }
    let r = JsonValue::Array(items);
    assert forall|k: int| 0 <= k < n implies #[trigger] r.model()->Array_0[k]
        == string_array_model(strings_model(v@))->Array_0[k] by {
        assert(items@[k].model() == JsonView::String(v@[k]@));
    }
    assert(r.model()->Array_0 =~= string_array_model(strings_model(v@))->Array_0);
    r
}

impl RoutineAction {
    /// Serialize action config to JSON for DB storage.
    pub fn to_config_json(&self) -> (r: JsonValue)
        ensures
            r.model() == action_config_model(self.model()),
    {
        match self {
            RoutineAction::Lightweight { prompt, context_paths, max_tokens } => {
                let entries = vec![
                    ("prompt".to_owned(), JsonValue::String(prompt.clone())),
                    ("context_paths".to_owned(), json_string_array(context_paths)),
                    ("max_tokens".to_owned(), json_number(*max_tokens as u64)),
                ];
                let r = JsonValue::Object(entries);
                proof {
                    let m = r.model()->Object_0;
                    let e = action_config_model(self.model())->Object_0;
                    assert(entries@.len() == 3);
                    assert(entries@[0].1.model() == JsonView::String(prompt@));
                    assert(m[0] == e[0]);
                    assert(m[1] == e[1]);
                    assert(m[2] == e[2]);
                    assert(m =~= e);
                }
                r
            },
            RoutineAction::FullJob { title, description, max_iterations, tool_permissions } => {
                let entries = vec![
                    ("title".to_owned(), JsonValue::String(title.clone())),
                    ("description".to_owned(), JsonValue::String(description.clone())),
                    ("max_iterations".to_owned(), json_number(*max_iterations as u64)),
                    ("tool_permissions".to_owned(), json_string_array(tool_permissions)),
                ];
                let r = JsonValue::Object(entries);
                proof {
                    let m = r.model()->Object_0;
                    let e = action_config_model(self.model())->Object_0;
                    assert(entries@.len() == 4);
                    assert(entries@[0].1.model() == JsonView::String(title@));
                    assert(entries@[1].1.model() == JsonView::String(description@));
                    assert(m[0] == e[0]);
                    assert(m[1] == e[1]);
                    assert(m[2] == e[2]);
                    assert(m[3] == e[3]);
                    assert(m =~= e);
                }
                r
            },
        }
    }
}

proof fn lemma_string_items_of_strings(v: Seq<Seq<char>>)
    ensures
        model_string_items(v.map_values(|x: Seq<char>| JsonView::String(x))) == v,
    decreases v.len(),
{
    let m = v.map_values(|x: Seq<char>| JsonView::String(x));
    if v.len() > 0 {
        lemma_string_items_of_strings(v.drop_last());
        assert(m.drop_last() =~= v.drop_last().map_values(|x: Seq<char>| JsonView::String(x)));
    } else {
        assert(m =~= Seq::<JsonView>::empty());
    }
}

/// Storing an action and loading it back under its tag yields the same
/// action: `from_db(a.type_tag(), a.to_config_json())` is `Ok(a)`.
pub proof fn lemma_action_config_roundtrip(a: RoutineAction, config: JsonValue)
    requires
        config.model() == action_config_model(a.model()),
    ensures
        action_from_db_spec(action_tag(a.model()), config) == Ok::<
            RoutineActionView,
            RoutineErrorView,
        >(a.model()),
{
    reveal_strlit("lightweight");
    reveal_strlit("full_job");
    reveal_strlit("prompt");
    reveal_strlit("context_paths");
    reveal_strlit("max_tokens");
    reveal_strlit("title");
    reveal_strlit("description");
    reveal_strlit("max_iterations");
    reveal_strlit("tool_permissions");
    assert("lightweight"@.len() == 11);
    assert("full_job"@.len() == 8);
    assert("prompt"@.len() == 6);
    assert("context_paths"@.len() == 13);
    assert("max_tokens"@.len() == 10);
    assert("title"@.len() == 5);
    assert("description"@.len() == 11);
    assert("max_iterations"@.len() == 14);
    assert("tool_permissions"@.len() == 16);
    reveal_with_fuel(find_key_in_model, 5);
    match a.model() {
        RoutineActionView::Lightweight { prompt, context_paths, max_tokens } => {
            lemma_get_model(config, "prompt"@);
            lemma_accessors_model(json_get(config, "prompt"@));
            lemma_get_model(config, "max_tokens"@);
            lemma_accessors_model(json_get(config, "max_tokens"@));
            lemma_string_list_model(config, "context_paths"@);
            lemma_string_items_of_strings(context_paths);
            let em = config.model()->Object_0;
            assert(find_key_in_model(em, "prompt"@, 0) == Some(0int));
            assert(find_key_in_model(em, "context_paths"@, 0) == Some(1int));
            assert(find_key_in_model(em, "max_tokens"@, 0) == Some(2int));
            assert(model_get(config.model(), "prompt"@) == Some(JsonView::String(prompt)));
            assert(json_str_field(config, "prompt"@) == Some(prompt));
            assert(json_string_list(config, "context_paths"@) == context_paths);
            assert(u32_setting(config, "max_tokens"@, DEFAULT_MAX_TOKENS) == max_tokens);
        },
        RoutineActionView::FullJob { title, description, max_iterations, tool_permissions } => {
            lemma_get_model(config, "title"@);
            lemma_accessors_model(json_get(config, "title"@));
            lemma_get_model(config, "description"@);
            lemma_accessors_model(json_get(config, "description"@));
            lemma_get_model(config, "max_iterations"@);
            lemma_accessors_model(json_get(config, "max_iterations"@));
            lemma_string_list_model(config, "tool_permissions"@);
            lemma_string_items_of_strings(tool_permissions);
            let em = config.model()->Object_0;
            assert(find_key_in_model(em, "title"@, 0) == Some(0int));
            assert(find_key_in_model(em, "description"@, 0) == Some(1int));
            assert(find_key_in_model(em, "max_iterations"@, 0) == Some(2int));
            assert(find_key_in_model(em, "tool_permissions"@, 0) == Some(3int));
            assert(json_str_field(config, "title"@) == Some(title));
            assert(json_str_field(config, "description"@) == Some(description));
            assert(json_string_list(config, "tool_permissions"@) == tool_permissions);
            assert(u32_setting(config, "max_iterations"@, DEFAULT_MAX_ITERATIONS) == max_iterations);
        },
    }
}

} // verus!
