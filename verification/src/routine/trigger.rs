//! Routine trigger types: cron, event, system-event and manual triggers.

use vstd::prelude::*;

use crate::json::{
    find_key_in_model, get_str, json_get, json_str_field, lemma_accessors_model, lemma_get_model,
    JsonValue, JsonView,
};
use crate::llm::{clone_opt_string, opt_chars};
use crate::routine::{
    filter_string_of, json_value_as_filter_string, required_str_field, required_str_spec,
    RoutineError, RoutineErrorView,
};
use crate::text::str_eq;
use crate::timezone::{
    effective_zone, effective_zone_name, is_known_timezone, opt_str, timezone_is_known, unix_now,
};

verus! {

/// When a routine should fire.
#[derive(Debug)]
pub enum Trigger {
    /// Fire on a cron schedule, evaluated in `timezone` (UTC when absent).
    Cron { schedule: String, timezone: Option<String> },
    /// Fire when a channel message matches a pattern.
    Event {
        /// Optional channel filter (e.g. "telegram", "slack").
        channel: Option<String>,
        /// Regex pattern to match against message content.
        pattern: String,
    },
    /// Fire when a structured system event is emitted.
    SystemEvent {
        /// Event source namespace (e.g. "github", "workflow", "tool").
        source: String,
        /// Event type within the source (e.g. "issue.opened").
        event_type: String,
        /// Exact-match filters against payload top-level fields.
        filters: Vec<(String, String)>,
    },
    /// Only fires via tool call or CLI.
    Manual,
}

/// Content of a trigger.
pub enum TriggerView {
    Cron { schedule: Seq<char>, timezone: Option<Seq<char>> },
    Event { channel: Option<Seq<char>>, pattern: Seq<char> },
    SystemEvent { source: Seq<char>, event_type: Seq<char>, filters: Seq<(Seq<char>, Seq<char>)> },
    Manual,
}

/// Content of filter pairs.
pub open spec fn filters_model(f: Seq<(String, String)>) -> Seq<(Seq<char>, Seq<char>)> {
    f.map_values(|p: (String, String)| (p.0@, p.1@))
}

impl Trigger {
    /// Content of this trigger.
    pub open spec fn model(self) -> TriggerView {
        match self {
            Trigger::Cron { schedule, timezone } => TriggerView::Cron {
                schedule: schedule@,
                timezone: opt_chars(timezone),
            },
            Trigger::Event { channel, pattern } => TriggerView::Event {
                channel: opt_chars(channel),
                pattern: pattern@,
            },
            Trigger::SystemEvent { source, event_type, filters } => TriggerView::SystemEvent {
                source: source@,
                event_type: event_type@,
                filters: filters_model(filters@),
            },
            Trigger::Manual => TriggerView::Manual,
        }
    }

    /// The string tag stored in the DB trigger_type column.
    pub fn type_tag(&self) -> (r: &'static str)
        ensures
            r@ == trigger_tag(self.model()),
    {
        match self {
            Trigger::Cron { .. } => "cron",
            Trigger::Event { .. } => "event",
            Trigger::SystemEvent { .. } => "system_event",
            Trigger::Manual => "manual",
        }
    }
}

/// The stored tag of a trigger kind.
pub open spec fn trigger_tag(t: TriggerView) -> Seq<char> {
    match t {
        TriggerView::Cron { .. } => "cron"@,
        TriggerView::Event { .. } => "event"@,
        TriggerView::SystemEvent { .. } => "system_event"@,
        TriggerView::Manual => "manual"@,
    }
}

/// The scalar members of a filter object as (key, text) pairs, in order.
pub open spec fn filter_entries(entries: Seq<(String, JsonValue)>) -> Seq<(Seq<char>, Seq<char>)>
    decreases entries.len(),
{
    if entries.len() == 0 {
        Seq::empty()
    } else {
        let rest = filter_entries(entries.drop_last());
        match filter_string_of(entries.last().1) {
            Some(s) => rest.push((entries.last().0@, s)),
            None => rest,
        }
    }
}

/// The filters stored under `filters`; empty when missing or not an object.
pub open spec fn stored_filters(config: JsonValue) -> Seq<(Seq<char>, Seq<char>)> {
    match json_get(config, "filters"@) {
        Some(JsonValue::Object(entries)) => filter_entries(entries@),
        _ => Seq::empty(),
    }
}

/// No two filters share a key.
pub open spec fn distinct_filter_keys(f: Seq<(Seq<char>, Seq<char>)>) -> bool {
    forall|i: int, j: int| #![trigger f[i], f[j]] 0 <= i < j < f.len() ==> f[i].0 != f[j].0
}

/// No two members of an object share a key (as in parsed JSON).
pub open spec fn distinct_member_keys(e: Seq<(String, JsonValue)>) -> bool {
    forall|i: int, j: int| #![trigger e[i], e[j]] 0 <= i < j < e.len() ==> e[i].0@ != e[j].0@
}

proof fn lemma_filter_entries_keys(e: Seq<(String, JsonValue)>)
    ensures
        forall|i: int|
            0 <= i < filter_entries(e).len() ==> exists|j: int|
                0 <= j < e.len() && #[trigger] filter_entries(e)[i].0 == e[j].0@,
        distinct_member_keys(e) ==> distinct_filter_keys(filter_entries(e)),
    decreases e.len(),
{
    if e.len() > 0 {
        let d = e.drop_last();
        lemma_filter_entries_keys(d);
        let rest = filter_entries(d);
        let f = filter_entries(e);
        assert forall|i: int| 0 <= i < f.len() implies exists|j: int|
            0 <= j < e.len() && #[trigger] f[i].0 == e[j].0@ by {
            if i < rest.len() {
                assert(f[i] == rest[i]);
                let j = choose|j: int| 0 <= j < d.len() && #[trigger] rest[i].0 == d[j].0@;
                assert(d[j] == e[j]);
            } else {
                assert(f[i].0 == e[e.len() - 1].0@);
            }
        }
        if distinct_member_keys(e) {
            assert forall|a: int, b: int| #![trigger d[a], d[b]] 0 <= a < b < d.len() implies d[a].0@
                != d[b].0@ by {
                assert(d[a] == e[a] && d[b] == e[b]);
            }
            assert forall|a: int, b: int| #![trigger f[a], f[b]] 0 <= a < b < f.len() implies f[a].0
                != f[b].0 by {
                if b < rest.len() {
                    assert(f[a] == rest[a] && f[b] == rest[b]);
                } else {
                    assert(f[a] == rest[a]);
                    let j = choose|j: int| 0 <= j < d.len() && #[trigger] rest[a].0 == d[j].0@;
                    assert(d[j] == e[j]);
                    assert(e[j].0@ != e[e.len() - 1].0@);
                }
            }
        }
    }
}

/// Filters loaded from an object whose keys are distinct (any parsed JSON
/// object) have distinct keys: each filter key names one payload field.
pub proof fn lemma_stored_filters_distinct(config: JsonValue)
    requires
        json_get(config, "filters"@) matches Some(JsonValue::Object(e)) ==> distinct_member_keys(e@),
    ensures
        distinct_filter_keys(stored_filters(config)),
{
    if let Some(JsonValue::Object(e)) = json_get(config, "filters"@) {
        lemma_filter_entries_keys(e@);
    }
}

/// The stored time zone when it names a known zone.
pub open spec fn stored_timezone(config: JsonValue) -> Option<Seq<char>> {
    match json_str_field(config, "timezone"@) {
        Some(tz) => if is_known_timezone(tz) {
            Some(tz)
        } else {
            None
        },
        None => None,
    }
}

/// The trigger stored with tag `trigger_type` and configuration `config`.
pub open spec fn trigger_from_db_spec(trigger_type: Seq<char>, config: JsonValue) -> Result<
    TriggerView,
    RoutineErrorView,
> {
    if trigger_type == "cron"@ {
        match required_str_spec(config, "cron trigger"@, "schedule"@) {
            Ok(schedule) => Ok(TriggerView::Cron { schedule, timezone: stored_timezone(config) }),
            Err(e) => Err(e),
        }
    } else if trigger_type == "event"@ {
        match required_str_spec(config, "event trigger"@, "pattern"@) {
            Ok(pattern) => Ok(
                TriggerView::Event { channel: json_str_field(config, "channel"@), pattern },
            ),
            Err(e) => Err(e),
        }
    } else if trigger_type == "system_event"@ {
        match required_str_spec(config, "system_event trigger"@, "source"@) {
            Ok(source) => match required_str_spec(config, "system_event trigger"@, "event_type"@) {
                Ok(event_type) => Ok(
                    TriggerView::SystemEvent {
                        source,
                        event_type,
                        filters: stored_filters(config),
                    },
                ),
                Err(e) => Err(e),
            },
            Err(e) => Err(e),
        }
    } else if trigger_type == "manual"@ {
        Ok(TriggerView::Manual)
    } else {
        Err(RoutineErrorView::UnknownTriggerType { trigger_type })
    }
}

/// The model of a trigger result.
pub open spec fn trigger_result_model(r: Result<Trigger, RoutineError>) -> Result<
    TriggerView,
    RoutineErrorView,
> {
    match r {
        Ok(t) => Ok(t.model()),
        Err(e) => Err(e.model()),
    }
}

proof fn lemma_tag_lengths()
    ensures
        "cron"@.len() == 4,
        "event"@.len() == 5,
        "system_event"@.len() == 12,
        "manual"@.len() == 6,
{
    reveal_strlit("cron");
    reveal_strlit("event");
    reveal_strlit("system_event");
    reveal_strlit("manual");
    assert("cron"@.len() == 4);
    assert("event"@.len() == 5);
    assert("system_event"@.len() == 12);
    assert("manual"@.len() == 6);
}

impl Trigger {
    /// Parse a trigger from its DB representation.
    pub fn from_db(trigger_type: &str, config: JsonValue) -> (r: Result<Self, RoutineError>)
        ensures
            trigger_result_model(r) == trigger_from_db_spec(trigger_type@, config),
    {
        proof {
            lemma_tag_lengths();
        }
        if str_eq(trigger_type, "cron") {
            Self::cron_from_config(&config)
        } else if str_eq(trigger_type, "event") {
            Self::event_from_config(&config)
        } else if str_eq(trigger_type, "system_event") {
            Self::system_event_from_config(&config)
        } else if str_eq(trigger_type, "manual") {
            Ok(Trigger::Manual)
        } else {
            Err(RoutineError::UnknownTriggerType { trigger_type: trigger_type.to_owned() })
        }
    }

    /// Parse a `cron` trigger's config, discarding unknown time zones.
    fn cron_from_config(config: &JsonValue) -> (r: Result<Self, RoutineError>)
        ensures
            trigger_result_model(r) == trigger_from_db_spec("cron"@, *config),
    {
        let schedule = match required_str_field(config, "cron trigger", "schedule") {
            Ok(s) => s,
            Err(e) => return Err(e),
        };
        let timezone = match get_str(config, "timezone") {
            Some(tz) => if timezone_is_known(tz.as_str()) {
                Some(tz)
            } else {
                None
            },
            None => None,
        };
        Ok(Trigger::Cron { schedule, timezone })
    }

    /// Parse an `event` trigger's config.
    fn event_from_config(config: &JsonValue) -> (r: Result<Self, RoutineError>)
        ensures
            trigger_result_model(r) == trigger_from_db_spec("event"@, *config),
    {
        proof {
            lemma_tag_lengths();
        }
        let pattern = match required_str_field(config, "event trigger", "pattern") {
            Ok(p) => p,
            Err(e) => return Err(e),
        };
        let channel = get_str(config, "channel");
        Ok(Trigger::Event { channel, pattern })
    }

    /// Parse a `system_event` trigger's config, skipping non-scalar filters.
    fn system_event_from_config(config: &JsonValue) -> (r: Result<Self, RoutineError>)
        ensures
            trigger_result_model(r) == trigger_from_db_spec("system_event"@, *config),
    {
        proof {
            lemma_tag_lengths();
        }
        let source = match required_str_field(config, "system_event trigger", "source") {
            Ok(s) => s,
            Err(e) => return Err(e),
        };
        let event_type = match required_str_field(config, "system_event trigger", "event_type") {
            Ok(s) => s,
            Err(e) => return Err(e),
        };
        let mut filters: Vec<(String, String)> = Vec::new();
        match config.get("filters") {
            Some(JsonValue::Object(entries)) => {
                let n = entries.len();
                let mut i: usize = 0;
                while i < n
                    invariant
                        n == entries@.len(),
                        i <= n,
                        filters_model(filters@) == filter_entries(entries@.take(i as int)),
                    decreases n - i,
                {
                    assert(entries@.take(i as int + 1).drop_last() =~= entries@.take(i as int));
                    if let Some(s) = json_value_as_filter_string(&entries[i].1) {
                        let ghost before = filters@;
                        filters.push((entries[i].0.clone(), s));
                        assert(filters_model(filters@) =~= filters_model(before).push(
                            (entries@[i as int].0@, s@),
                        ));
                    }
                    i = i + 1;
                }
                assert(entries@.take(n as int) =~= entries@);
            },
            _ => {
                assert(filters_model(filters@) =~= Seq::<(Seq<char>, Seq<char>)>::empty());
            },
        }
        Ok(Trigger::SystemEvent { source, event_type, filters })
    }
}

/// A JSON string, or null when absent.
pub open spec fn opt_string_model(s: Option<Seq<char>>) -> JsonView {
    match s {
        Some(x) => JsonView::String(x),
        None => JsonView::Null,
    }
}

/// Filters stored as an object of strings.
pub open spec fn filters_object_model(f: Seq<(Seq<char>, Seq<char>)>) -> JsonView {
    JsonView::Object(f.map_values(|p: (Seq<char>, Seq<char>)| (p.0, JsonView::String(p.1))))
}

/// The stored configuration of a trigger.
pub open spec fn trigger_config_model(t: TriggerView) -> JsonView {
    match t {
        TriggerView::Cron { schedule, timezone } => JsonView::Object(
            seq![("schedule"@, JsonView::String(schedule)), ("timezone"@, opt_string_model(timezone))],
        ),
        TriggerView::Event { channel, pattern } => JsonView::Object(
            seq![("pattern"@, JsonView::String(pattern)), ("channel"@, opt_string_model(channel))],
        ),
        TriggerView::SystemEvent { source, event_type, filters } => JsonView::Object(
            seq![
                ("source"@, JsonView::String(source)),
                ("event_type"@, JsonView::String(event_type)),
                ("filters"@, filters_object_model(filters)),
            ],
        ),
        TriggerView::Manual => JsonView::Object(Seq::empty()),
    }
}

/// A JSON string holding a copy of `s`, or null.
pub fn json_opt_string(s: &Option<String>) -> (r: JsonValue)
    ensures
        r.model() == opt_string_model(opt_chars(*s)),
{
    match s {
        Some(x) => JsonValue::String(x.clone()),
        None => JsonValue::Null,
    }
}

/// A JSON object mapping each filter key to its text, in order.
pub fn json_filters(f: &Vec<(String, String)>) -> (r: JsonValue)
    ensures
        r.model() == filters_object_model(filters_model(f@)),
{
    let mut entries: Vec<(String, JsonValue)> = Vec::new();
    let n = f.len();
    let mut i: usize = 0;
    while i < n
        invariant
            n == f@.len(),
            i <= n,
            entries@.len() == i,
            forall|k: int|
                0 <= k < i ==> (#[trigger] entries@[k]).0@ == f@[k].0@ && entries@[k].1.model()
                    == JsonView::String(f@[k].1@),
        decreases n - i,
    {
        entries.push((f[i].0.clone(), JsonValue::String(f[i].1.clone())));
        i = i + 1;
    }
    let r = JsonValue::Object(entries);
    assert forall|k: int| 0 <= k < n implies #[trigger] r.model()->Object_0[k]
        == filters_object_model(filters_model(f@))->Object_0[k] by {
        assert(entries@[k].0@ == f@[k].0@);
    }
    assert(r.model()->Object_0 =~= filters_object_model(filters_model(f@))->Object_0);
    r
}

impl Trigger {
    /// Serialize trigger-specific config to JSON for DB storage.
    pub fn to_config_json(&self) -> (r: JsonValue)
        ensures
            r.model() == trigger_config_model(self.model()),
    {
        match self {
            Trigger::Cron { schedule, timezone } => {
                let entries = vec![
                    ("schedule".to_owned(), JsonValue::String(schedule.clone())),
                    ("timezone".to_owned(), json_opt_string(timezone)),
                ];
                let r = JsonValue::Object(entries);
                proof {
                    let m = r.model()->Object_0;
                    let e = trigger_config_model(self.model())->Object_0;
                    assert(entries@.len() == 2);
                    assert(entries@[0].1.model() == JsonView::String(schedule@));
                    assert(m[0] == e[0]);
                    assert(m[1] == e[1]);
                    assert(m =~= e);
                }
                r
            },
            Trigger::Event { channel, pattern } => {
                let entries = vec![
                    ("pattern".to_owned(), JsonValue::String(pattern.clone())),
                    ("channel".to_owned(), json_opt_string(channel)),
                ];
                let r = JsonValue::Object(entries);
                proof {
                    let m = r.model()->Object_0;
                    let e = trigger_config_model(self.model())->Object_0;
                    assert(entries@.len() == 2);
                    assert(entries@[0].1.model() == JsonView::String(pattern@));
                    assert(m[0] == e[0]);
                    assert(m[1] == e[1]);
                    assert(m =~= e);
                }
                r
            },
            Trigger::SystemEvent { source, event_type, filters } => {
                let entries = vec![
                    ("source".to_owned(), JsonValue::String(source.clone())),
                    ("event_type".to_owned(), JsonValue::String(event_type.clone())),
                    ("filters".to_owned(), json_filters(filters)),
                ];
                let r = JsonValue::Object(entries);
                proof {
                    let m = r.model()->Object_0;
                    let e = trigger_config_model(self.model())->Object_0;
                    assert(entries@.len() == 3);
                    assert(entries@[0].1.model() == JsonView::String(source@));
                    assert(entries@[1].1.model() == JsonView::String(event_type@));
                    assert(m[0] == e[0]);
                    assert(m[1] == e[1]);
                    assert(m[2] == e[2]);
                    assert(m =~= e);
                }
                r
            },
            Trigger::Manual => {
                let entries: Vec<(String, JsonValue)> = Vec::new();
                let r = JsonValue::Object(entries);
                assert(r.model()->Object_0 =~= Seq::<(Seq<char>, JsonView)>::empty());
                r
            },
        }
    }
}

/// The filter text of a content: strings as they are, numbers by their
/// text, booleans as `true`/`false`.
pub open spec fn model_filter_string(v: JsonView) -> Option<Seq<char>> {
    match v {
        JsonView::String(s) => Some(s),
        JsonView::Number(_, t) => Some(t),
        JsonView::Bool(b) => Some(
            if b {
                "true"@
            } else {
                "false"@
            },
        ),
        _ => None,
    }
}

/// The scalar members of an object's content as (key, text) pairs.
pub open spec fn model_filter_entries(entries: Seq<(Seq<char>, JsonView)>) -> Seq<
    (Seq<char>, Seq<char>),
>
    decreases entries.len(),
{
    if entries.len() == 0 {
        Seq::empty()
    } else {
        let rest = model_filter_entries(entries.drop_last());
        match model_filter_string(entries.last().1) {
            Some(s) => rest.push((entries.last().0, s)),
            None => rest,
        }
    }
}

proof fn lemma_filter_entries_model(entries: Vec<(String, JsonValue)>, n: int)
    requires
        0 <= n <= entries@.len(),
    ensures
        filter_entries(entries@.take(n)) == model_filter_entries(
            JsonValue::Object(entries).model()->Object_0.take(n),
        ),
    decreases n,
{
    let m = JsonValue::Object(entries).model()->Object_0;
    if n > 0 {
        lemma_filter_entries_model(entries, n - 1);
        assert(entries@.take(n).drop_last() =~= entries@.take(n - 1));
        assert(m.take(n).drop_last() =~= m.take(n - 1));
        assert(m[n - 1] == (entries@[n - 1].0@, entries@[n - 1].1.model()));
    }
}

proof fn lemma_filter_entries_of_strings(f: Seq<(Seq<char>, Seq<char>)>)
    ensures
        model_filter_entries(filters_object_model(f)->Object_0) == f,
    decreases f.len(),
{
    let m = filters_object_model(f)->Object_0;
    if f.len() > 0 {
        lemma_filter_entries_of_strings(f.drop_last());
        assert(m.drop_last() =~= filters_object_model(f.drop_last())->Object_0);
    } else {
        assert(m =~= Seq::<(Seq<char>, JsonView)>::empty());
    }
}

/// Storing a trigger and loading it back under its tag yields the same
/// trigger: `from_db(t.type_tag(), t.to_config_json())` is `Ok(t)`, provided
/// that a cron trigger's time zone, when present, names a known zone
/// (loading drops unknown zones).
pub proof fn lemma_trigger_config_roundtrip(t: Trigger, config: JsonValue)
    requires
        config.model() == trigger_config_model(t.model()),
        t.model() matches TriggerView::Cron { timezone: Some(tz), .. } ==> is_known_timezone(tz),
    ensures
        trigger_from_db_spec(trigger_tag(t.model()), config) == Ok::<TriggerView, RoutineErrorView>(
            t.model(),
        ),
{
    lemma_tag_lengths();
    reveal_strlit("schedule");
    reveal_strlit("timezone");
    reveal_strlit("pattern");
    reveal_strlit("channel");
    reveal_strlit("source");
    reveal_strlit("event_type");
    reveal_strlit("filters");
    assert("schedule"@.len() == 8);
    assert("timezone"@.len() == 8);
    assert("schedule"@[0] != "timezone"@[0]);
    assert("pattern"@.len() == 7);
    assert("channel"@.len() == 7);
    assert("pattern"@[0] != "channel"@[0]);
    assert("source"@.len() == 6);
    assert("event_type"@.len() == 10);
    assert("filters"@.len() == 7);
    reveal_with_fuel(find_key_in_model, 4);
    let em = config.model()->Object_0;
    match t.model() {
        TriggerView::Cron { schedule, timezone } => {
            lemma_get_model(config, "schedule"@);
            lemma_accessors_model(json_get(config, "schedule"@));
            lemma_get_model(config, "timezone"@);
            lemma_accessors_model(json_get(config, "timezone"@));
            assert(find_key_in_model(em, "schedule"@, 0) == Some(0int));
            assert(find_key_in_model(em, "timezone"@, 0) == Some(1int));
            assert(json_str_field(config, "schedule"@) == Some(schedule));
            assert(json_str_field(config, "timezone"@) == timezone);
        },
        TriggerView::Event { channel, pattern } => {
            lemma_get_model(config, "pattern"@);
            lemma_accessors_model(json_get(config, "pattern"@));
            lemma_get_model(config, "channel"@);
            lemma_accessors_model(json_get(config, "channel"@));
            assert(find_key_in_model(em, "pattern"@, 0) == Some(0int));
            assert(find_key_in_model(em, "channel"@, 0) == Some(1int));
            assert(json_str_field(config, "pattern"@) == Some(pattern));
            assert(json_str_field(config, "channel"@) == channel);
        },
        TriggerView::SystemEvent { source, event_type, filters } => {
            lemma_get_model(config, "source"@);
            lemma_accessors_model(json_get(config, "source"@));
            lemma_get_model(config, "event_type"@);
            lemma_accessors_model(json_get(config, "event_type"@));
            lemma_get_model(config, "filters"@);
            assert(find_key_in_model(em, "source"@, 0) == Some(0int));
            assert(find_key_in_model(em, "event_type"@, 0) == Some(1int));
            assert(find_key_in_model(em, "filters"@, 0) == Some(2int));
            assert(json_str_field(config, "source"@) == Some(source));
            assert(json_str_field(config, "event_type"@) == Some(event_type));
            let fv = json_get(config, "filters"@).unwrap();
            assert(fv.model() == filters_object_model(filters));
            if let JsonValue::Object(fe) = fv {
                lemma_filter_entries_model(fe, fe@.len() as int);
                assert(fe@.take(fe@.len() as int) =~= fe@);
                let fm = fv.model()->Object_0;
                assert(fm.take(fm.len() as int) =~= fm);
                lemma_filter_entries_of_strings(filters);
                assert(stored_filters(config) == filters);
            }
        },
        TriggerView::Manual => {},
    }
}

/// A parsed cron schedule.
#[verifier::external_type_specification]
#[verifier::external_body]
pub struct ExSchedule(cron::Schedule);

/// Why `cron` refuses the expression `schedule`, or `None` when it parses.
pub uninterp spec fn cron_parse_error(schedule: Seq<char>) -> Option<Seq<char>>;

/// Parses a cron expression (`<cron::Schedule as FromStr>::from_str`); on
/// failure, the error's message. Which expressions parse, and the message,
/// are the crate's grammar, left to the name `cron_parse_error`.
#[verifier::external_body]
fn parse_cron_schedule(schedule: &str) -> (r: Result<cron::Schedule, String>)
    ensures
        match r {
            Ok(_) => cron_parse_error(schedule@) is None,
            Err(e) => cron_parse_error(schedule@) == Some(e@),
        },
{
    match schedule.parse::<cron::Schedule>() {
        Ok(s) => Ok(s),
        Err(e) => Err(e.to_string()),
    }
}

/// The first time after Unix second `now` at which the cron expression
/// `schedule` fires, evaluated in the zone named `zone`.
pub uninterp spec fn cron_next_after(schedule: Seq<char>, zone: Seq<char>, now: i64) -> Option<i64>;

/// The last Unix second chrono can represent (262142-12-31T23:59:59Z).
pub const LAST_REPRESENTABLE_SECOND: i64 = 8210266876799;

/// The first time after Unix second `now` (`DateTime::from_timestamp`) at
/// which `schedule` fires, evaluated in the zone named `zone`
/// (`Schedule::after(..).next()` on the time seen in that zone), as Unix
/// seconds. `None` when the expression or the zone does not parse, `now`
/// is out of chrono's range, or the schedule never fires again. The
/// schedule's search starts one second after `now`, an addition that
/// panics at chrono's last second; the call checks that addition first
/// (`DateTime::checked_add_signed`) and answers `None` there, since no
/// later second exists. The calendar search is the crate's, left to the
/// name `cron_next_after`.
#[verifier::external_body]
fn next_fire_after(schedule: &str, zone: &str, now: i64) -> (r: Option<i64>)
    ensures
        r == cron_next_after(schedule@, zone@, now),
        now >= LAST_REPRESENTABLE_SECOND ==> r is None,
{
    let parsed = schedule.parse::<cron::Schedule>().ok()?;
    let tz = zone.parse::<chrono_tz::Tz>().ok()?;
    let start = chrono::DateTime::from_timestamp(now, 0)?.with_timezone(&tz);
    start.clone().checked_add_signed(chrono::TimeDelta::seconds(1))?;
    parsed.after(&start).next().map(|dt| dt.timestamp())
}

/// The next fire time of a cron expression after Unix second `now`, as
/// Unix seconds.
///
/// When `timezone` names a known zone, the schedule is evaluated in that
/// zone; otherwise in UTC. An expression that does not parse is an
/// `InvalidCron` error carrying the parser's message.
pub fn next_cron_fire_at(schedule: &str, timezone: Option<&str>, now: i64) -> (r: Result<
    Option<i64>,
    RoutineError,
>)
    ensures
        (r is Ok) <==> cron_parse_error(schedule@) is None,
        r matches Err(e) ==> (cron_parse_error(schedule@) matches Some(reason)
            && e.model() == (RoutineErrorView::InvalidCron { reason })),
        r matches Ok(t) ==> t == cron_next_after(
            schedule@,
            effective_zone(opt_str(timezone)),
            now,
        ),
        now >= LAST_REPRESENTABLE_SECOND ==> (r is Ok ==> r matches Ok(None)),
{
    if let Err(reason) = parse_cron_schedule(schedule) {
        return Err(RoutineError::InvalidCron { reason });
    }
    let zone = effective_zone_name(timezone);
    Ok(next_fire_after(schedule, zone.as_str(), now))
}

/// Parse a cron expression and compute the next fire time from now, as
/// Unix seconds: `next_cron_fire_at` at the clock's current second.
pub fn next_cron_fire(schedule: &str, timezone: Option<&str>) -> (r: Result<Option<i64>, RoutineError>)
    ensures
        (r is Ok) <==> cron_parse_error(schedule@) is None,
        r matches Err(e) ==> (cron_parse_error(schedule@) matches Some(reason)
            && e.model() == (RoutineErrorView::InvalidCron { reason })),
        r matches Ok(t) ==> exists|now: i64|
            t == #[trigger] cron_next_after(
                schedule@,
                effective_zone(opt_str(timezone)),
                now,
            ),
{
    let now = unix_now();
    next_cron_fire_at(schedule, timezone, now)
}

} // verus!
