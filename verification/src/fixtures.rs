//! Declarative evaluation fixtures: their shape, their JSON form, and the
//! verified ordering that makes run order reproducible.
//!
//! JSON text is parsed by `serde_json` and converted, variant by variant,
//! into the library's own document type. That boundary is trusted once: the
//! parse result is named by `json_doc_of`, a function of the text alone.
//! Everything above it — member lookup, the fixture schema, defaults,
//! error messages, skipping and sorting — is verified.

use vstd::prelude::*;
use vstd::seq_lib::group_to_multiset_ensures;
use vstd::seq_lib::lemma_multiset_commutative;
use vstd::string::StringExecFns;

use crate::text::{lemma_lex_total, lemma_lex_trans, lex_le, lex_le_chars, str_eq, str_to_chars};

verus! {

/// Mathematical model of a JSON document, over plain values. A number is
/// carried as an unsigned 64-bit integer when it is one, and is otherwise
/// opaque; object members are carried as a binding list.
#[verifier::ext_equal]
pub enum JsonModel {
    Null,
    Bool(bool),
    Num(Option<u64>),
    Str(Seq<char>),
    Arr(Seq<JsonModel>),
    Obj(Seq<(Seq<char>, JsonModel)>),
}

/// A parsed JSON document, held as plain library values.
#[derive(Debug)]
pub enum JsonValue {
    Null,
    Bool(bool),
    /// A number, as an unsigned 64-bit integer when it is one.
    Num(Option<u64>),
    Str(String),
    Arr(Vec<JsonValue>),
    Obj(Vec<(String, JsonValue)>),
}

impl JsonValue {
    /// The mathematical value of the document.
    pub open spec fn model(self) -> JsonModel
        decreases self,
    {
        match self {
            JsonValue::Null => JsonModel::Null,
            JsonValue::Bool(b) => JsonModel::Bool(b),
            JsonValue::Num(n) => JsonModel::Num(n),
            JsonValue::Str(s) => JsonModel::Str(s@),
            JsonValue::Arr(_) => {
                proof {
                    assert(decreases_to!(self => self->Arr_0@));
                }
                JsonModel::Arr(models_of(self->Arr_0@))
            },
            JsonValue::Obj(_) => {
                proof {
                    assert(decreases_to!(self => self->Obj_0@));
                }
                JsonModel::Obj(entry_models_of(self->Obj_0@))
            },
        }
    }
}

/// The models of a list of documents, in order.
pub open spec fn models_of(items: Seq<JsonValue>) -> Seq<JsonModel>
    decreases items,
{
    if items.len() == 0 {
        Seq::empty()
    } else {
        proof {
            assert(decreases_to!(items => items[0]));
            assert(decreases_to!(items => items.subrange(1, items.len() as int)));
        }
        seq![items[0].model()] + models_of(items.subrange(1, items.len() as int))
    }
}

/// The models of an object's bindings, in order.
pub open spec fn entry_models_of(entries: Seq<(String, JsonValue)>) -> Seq<(Seq<char>, JsonModel)>
    decreases entries,
{
    if entries.len() == 0 {
        Seq::empty()
    } else {
        proof {
            assert(decreases_to!(entries => entries[0]));
            assert(decreases_to!(entries[0] => entries[0].1));
            assert(decreases_to!(entries => entries.subrange(1, entries.len() as int)));
        }
        seq![(entries[0].0@, entries[0].1.model())] + entry_models_of(
            entries.subrange(1, entries.len() as int),
        )
    }
}

/// Pointwise reading of [`models_of`].
pub proof fn lemma_models_of(items: Seq<JsonValue>)
    ensures
        models_of(items).len() == items.len(),
        forall|i: int| 0 <= i < items.len() ==> models_of(items)[i] == (#[trigger] items[i]).model(),
    decreases items.len(),
{
    if items.len() > 0 {
        let rest = items.subrange(1, items.len() as int);
        lemma_models_of(rest);
        assert(forall|i: int| 0 <= i < rest.len() ==> #[trigger] rest[i] == items[i + 1]);
        assert forall|i: int| 0 <= i < items.len() implies models_of(items)[i] == (
        #[trigger] items[i]).model() by {
            if i == 0 {
                assert(models_of(items)[0] == items[0].model());
            } else {
                assert(models_of(items)[i] == models_of(rest)[i - 1]);
                assert(models_of(rest)[i - 1] == rest[i - 1].model());
            }
        }
    }
}

/// Pointwise reading of [`entry_models_of`].
pub proof fn lemma_entry_models_of(entries: Seq<(String, JsonValue)>)
    ensures
        entry_models_of(entries).len() == entries.len(),
        forall|i: int|
            0 <= i < entries.len() ==> entry_models_of(entries)[i] == ((#[trigger] entries[i]).0@,
            entries[i].1.model()),
    decreases entries.len(),
{
    if entries.len() > 0 {
        let rest = entries.subrange(1, entries.len() as int);
        lemma_entry_models_of(rest);
        assert(forall|i: int| 0 <= i < rest.len() ==> #[trigger] rest[i] == entries[i + 1]);
        assert forall|i: int| 0 <= i < entries.len() implies entry_models_of(entries)[i] == ((
        #[trigger] entries[i]).0@, entries[i].1.model()) by {
            if i == 0 {
                assert(entry_models_of(entries)[0] == (entries[0].0@, entries[0].1.model()));
            } else {
                assert(entry_models_of(entries)[i] == entry_models_of(rest)[i - 1]);
                assert(entry_models_of(rest)[i - 1] == (rest[i - 1].0@, rest[i - 1].1.model()));
            }
        }
    }
}

/// The parse of a JSON text: the document's model, or nothing exactly when
/// the text is not valid JSON. `serde_json` keeps object members sorted by
/// key, so this is a function of the text alone.
pub uninterp spec fn json_doc_of(text: Seq<char>) -> Option<JsonModel>;

#[verifier::external_type_specification]
#[verifier::external_body]
pub struct ExValue(serde_json::Value);

/// Relies on `serde_json::Value`'s data model: converts one parsed value,
/// variant by variant, into the library's document type. Part of the
/// trusted parse boundary whose contract stands on `json_parse`.
#[verifier::external_body]
fn convert_value(v: &serde_json::Value) -> JsonValue {
    match v {
        serde_json::Value::Null => JsonValue::Null,
        serde_json::Value::Bool(b) => JsonValue::Bool(*b),
        serde_json::Value::Number(n) => JsonValue::Num(n.as_u64()),
        serde_json::Value::String(s) => JsonValue::Str(s.clone()),
        serde_json::Value::Array(_) => convert_array(v),
        serde_json::Value::Object(_) => convert_object(v),
    }
}

/// Relies on `serde_json::Value::Array`: converts its elements in order.
/// Part of the trusted parse boundary whose contract stands on `json_parse`.
#[verifier::external_body]
fn convert_array(v: &serde_json::Value) -> JsonValue {
    let mut out = Vec::new();
    if let serde_json::Value::Array(items) = v {
        for item in items {
            out.push(convert_value(item));
        }
    }
    JsonValue::Arr(out)
}

/// Relies on `serde_json::Value::Object`: converts its members in the order
/// the map iterates them (sorted by key). Part of the trusted parse boundary
/// whose contract stands on `json_parse`.
#[verifier::external_body]
fn convert_object(v: &serde_json::Value) -> JsonValue {
    let mut out = Vec::new();
    if let serde_json::Value::Object(entries) = v {
        for (key, value) in entries {
            out.push((key.clone(), convert_value(value)));
        }
    }
    JsonValue::Obj(out)
}

/// Relies on `serde_json::from_str::<Value>`: parses one JSON document
/// deterministically, or fails exactly on invalid JSON; the parse error is
/// rendered to plain text. The result is the named parse of the text.
#[verifier::external_body]
fn json_parse(text: &str) -> (r: Result<JsonValue, String>)
    ensures
        r matches Ok(d) ==> json_doc_of(text@) == Some(d.model()),
        r is Err ==> json_doc_of(text@) is None,
{
    match serde_json::from_str::<serde_json::Value>(text) {
        Ok(v) => Ok(convert_value(&v)),
        Err(e) => Err(e.to_string()),
    }
}

/// The value bound to `key` in a binding list; the last binding wins.
pub open spec fn entries_member(
    entries: Seq<(Seq<char>, JsonModel)>,
    key: Seq<char>,
) -> Option<JsonModel>
    decreases entries.len(),
{
    if entries.len() == 0 {
        None
    } else if entries.last().0 == key {
        Some(entries.last().1)
    } else {
        entries_member(entries.drop_last(), key)
    }
}

/// The member of a document under `key`: nothing unless the document is an
/// object holding that key.
pub open spec fn spec_member(d: JsonModel, key: Seq<char>) -> Option<JsonModel> {
    match d {
        JsonModel::Obj(entries) => entries_member(entries, key),
        _ => None,
    }
}

impl JsonValue {
    /// The member of an object under `key`.
    pub fn member<'a>(&'a self, key: &str) -> (r: Option<&'a JsonValue>)
        ensures
            match spec_member(self.model(), key@) {
                Some(m) => r matches Some(v) && v.model() == m,
                None => r is None,
            },
    {
        match self {
            JsonValue::Obj(entries) => {
                let ghost ems = self.model()->Obj_0;
                let mut i: usize = entries.len();
                proof {
                    lemma_entry_models_of(entries@);
                    assert(ems.take(i as int) =~= ems);
                }
                while i > 0
                    invariant
                        i <= entries@.len() == ems.len(),
                        self is Obj && entries == self->Obj_0,
                        ems == self.model()->Obj_0,
                        forall|j: int|
                            0 <= j < ems.len() ==> ems[j] == ((#[trigger] entries@[j]).0@,
                            entries@[j].1.model()),
                        entries_member(ems, key@) == entries_member(ems.take(i as int), key@),
                    decreases i,
                {
                    i = i - 1;
                    proof {
                        let entry = entries@[i as int];
                        assert(ems[i as int] == (entry.0@, entry.1.model()));
                        assert(ems.take(i as int + 1).last() == ems[i as int]);
                        assert(ems.take(i as int + 1).drop_last() =~= ems.take(i as int));
                    }
                    if str_eq(entries[i].0.as_str(), key) {
                        return Some(&entries[i].1);
                    }
                }
                proof {
                    assert(ems.take(0) =~= Seq::<(Seq<char>, JsonModel)>::empty());
                }
                None
            },
            _ => None,
        }
    }

    /// The text of a string value.
    pub fn as_str(&self) -> (r: Option<&String>)
        ensures
            match self.model() {
                JsonModel::Str(s) => r matches Some(x) && x@ == s,
                _ => r is None,
            },
    {
        match self {
            JsonValue::Str(s) => Some(s),
            _ => None,
        }
    }

    /// The value of a boolean.
    pub fn as_bool(&self) -> (r: Option<bool>)
        ensures
            match self.model() {
                JsonModel::Bool(b) => r == Some(b),
                _ => r is None,
            },
    {
        match self {
            JsonValue::Bool(b) => Some(*b),
            _ => None,
        }
    }

    /// A number as an unsigned 64-bit integer, when it is one.
    pub fn as_u64(&self) -> (r: Option<u64>)
        ensures
            match self.model() {
                JsonModel::Num(n) => r == n,
                _ => r is None,
            },
    {
        match self {
            JsonValue::Num(n) => *n,
            _ => None,
        }
    }

    /// The elements of an array value.
    pub fn as_array(&self) -> (r: Option<&Vec<JsonValue>>)
        ensures
            match self.model() {
                JsonModel::Arr(ms) => r matches Some(items) && items@.len() == ms.len() && (forall|
                    i: int,
                |
                    0 <= i < ms.len() ==> (#[trigger] items@[i]).model() == ms[i]),
                _ => r is None,
            },
    {
        match self {
            JsonValue::Arr(items) => {
                proof {
                    lemma_models_of(items@);
                }
                Some(items)
            },
            _ => None,
        }
    }
}

/// Mathematical model of a seed fact.
pub struct SeedFactModel {
    pub id: Seq<char>,
    pub content: Seq<char>,
}

/// A seed fact of a fixture: id and content, implicitly in the seed
/// category.
#[derive(Debug)]
pub struct SeedFact {
    pub id: String,
    pub content: String,
}

impl View for SeedFact {
    type V = SeedFactModel;

    open spec fn view(&self) -> SeedFactModel {
        SeedFactModel { id: self.id@, content: self.content@ }
    }
}

impl DeepView for SeedFact {
    type V = SeedFactModel;

    open spec fn deep_view(&self) -> SeedFactModel {
        self@
    }
}

impl Clone for SeedFact {
    fn clone(&self) -> (other: Self)
        ensures
            other@ == self@,
    {
        SeedFact { id: self.id.clone(), content: self.content.clone() }
    }
}

/// Mathematical model of an expectation record.
pub struct ExpectationModel {
    pub converged: Option<bool>,
    pub max_cycles: Option<u32>,
    pub min_facts: Option<usize>,
    pub must_contain_facts: Seq<Seq<char>>,
    pub must_not_contain_facts: Seq<Seq<char>>,
    pub min_strategies: Option<usize>,
    pub min_evaluations: Option<usize>,
    pub max_latency_ms: Option<u64>,
    pub required_context_keys: Seq<Seq<char>>,
}

/// The expected outcomes of an eval: a sparse record whose fields are each
/// independently optional; an absent field means "not checked".
#[derive(Debug)]
pub struct EvalExpectation {
    /// Required convergence flag.
    pub converged: Option<bool>,
    /// Maximum allowed cycles.
    pub max_cycles: Option<u32>,
    /// Minimum number of facts produced.
    pub min_facts: Option<usize>,
    /// Id prefixes of which at least one fact must exist.
    pub must_contain_facts: Vec<String>,
    /// Id prefixes of which no fact may exist.
    pub must_not_contain_facts: Vec<String>,
    /// Minimum number of strategies generated.
    pub min_strategies: Option<usize>,
    /// Minimum number of evaluations generated.
    pub min_evaluations: Option<usize>,
    /// Maximum wall-clock latency in milliseconds.
    pub max_latency_ms: Option<u64>,
    /// Categories that must hold at least one fact.
    pub required_context_keys: Vec<String>,
}

impl View for EvalExpectation {
    type V = ExpectationModel;

    open spec fn view(&self) -> ExpectationModel {
        ExpectationModel {
            converged: self.converged,
            max_cycles: self.max_cycles,
            min_facts: self.min_facts,
            must_contain_facts: self.must_contain_facts.deep_view(),
            must_not_contain_facts: self.must_not_contain_facts.deep_view(),
            min_strategies: self.min_strategies,
            min_evaluations: self.min_evaluations,
            max_latency_ms: self.max_latency_ms,
            required_context_keys: self.required_context_keys.deep_view(),
        }
    }
}

/// Mathematical model of a fixture.
pub struct FixtureModel {
    pub eval_id: Seq<char>,
    pub description: Seq<char>,
    pub pack: Seq<char>,
    pub seeds: Seq<SeedFactModel>,
    pub expected: ExpectationModel,
    pub use_mock_llm: bool,
}

/// One declarative test scenario: seeds in, expectations out.
#[derive(Debug)]
pub struct EvalFixture {
    /// Unique identifier of the scenario.
    pub eval_id: String,
    /// Human-readable description.
    pub description: String,
    /// The domain pack to run.
    pub pack: String,
    /// The seed facts the run starts from.
    pub seeds: Vec<SeedFact>,
    /// The expected outcomes.
    pub expected: EvalExpectation,
    /// Whether to use the deterministic stand-in provider.
    pub use_mock_llm: bool,
}

impl View for EvalFixture {
    type V = FixtureModel;

    open spec fn view(&self) -> FixtureModel {
        FixtureModel {
            eval_id: self.eval_id@,
            description: self.description@,
            pack: self.pack@,
            seeds: self.seeds.deep_view(),
            expected: self.expected@,
            use_mock_llm: self.use_mock_llm,
        }
    }
}

impl DeepView for EvalFixture {
    type V = FixtureModel;

    open spec fn deep_view(&self) -> FixtureModel {
        self@
    }
}

/// The error text for a fixture field.
pub open spec fn spec_field_error(key: Seq<char>, problem: Seq<char>) -> Seq<char> {
    "fixture field '"@ + key + "' "@ + problem
}

fn field_error(key: &str, problem: &str) -> (msg: String)
    ensures
        msg@ == spec_field_error(key@, problem@),
{
    let mut msg = "fixture field '".to_owned();
    msg.append(key);
    msg.append("' ");
    msg.append(problem);
    proof {
        assert(msg@ =~= spec_field_error(key@, problem@));
    }
    msg
}

/// A required string member: its text, or why it is unusable.
pub open spec fn spec_string_field(d: JsonModel, key: Seq<char>) -> Result<Seq<char>, Seq<char>> {
    match spec_member(d, key) {
        Some(JsonModel::Str(s)) => Ok(s),
        Some(_) => Err(spec_field_error(key, "must be a string"@)),
        None => Err(spec_field_error(key, "is missing"@)),
    }
}

fn get_string_field(doc: &JsonValue, key: &str) -> (r: Result<String, String>)
    ensures
        match spec_string_field(doc.model(), key@) {
            Ok(s) => r matches Ok(x) && x@ == s,
            Err(m) => r matches Err(e) && e@ == m,
        },
{
    match doc.member(key) {
        Some(v) => match v.as_str() {
            Some(s) => Ok(s.clone()),
            None => Err(field_error(key, "must be a string")),
        },
        None => Err(field_error(key, "is missing")),
    }
}

/// An optional boolean member: its value, absence, or why it is unusable.
pub open spec fn spec_opt_bool(d: JsonModel, key: Seq<char>) -> Result<
    Option<bool>,
    Seq<char>,
> {
    match spec_member(d, key) {
        Some(JsonModel::Bool(b)) => Ok(Some(b)),
        Some(_) => Err(spec_field_error(key, "must be a boolean"@)),
        None => Ok(None),
    }
}

fn get_opt_bool(doc: &JsonValue, key: &str) -> (r: Result<Option<bool>, String>)
    ensures
        match spec_opt_bool(doc.model(), key@) {
            Ok(ob) => r == Result::<Option<bool>, String>::Ok(ob),
            Err(m) => r matches Err(e) && e@ == m,
        },
{
    match doc.member(key) {
        Some(v) => match v.as_bool() {
            Some(b) => Ok(Some(b)),
            None => Err(field_error(key, "must be a boolean")),
        },
        None => Ok(None),
    }
}

/// An optional unsigned member: its value, absence, or why it is unusable.
pub open spec fn spec_opt_u64(d: JsonModel, key: Seq<char>) -> Result<Option<u64>, Seq<char>> {
    match spec_member(d, key) {
        Some(JsonModel::Num(Some(n))) => Ok(Some(n)),
        Some(_) => Err(spec_field_error(key, "must be an unsigned integer"@)),
        None => Ok(None),
    }
}

fn get_opt_u64(doc: &JsonValue, key: &str) -> (r: Result<Option<u64>, String>)
    ensures
        match spec_opt_u64(doc.model(), key@) {
            Ok(on) => r == Result::<Option<u64>, String>::Ok(on),
            Err(m) => r matches Err(e) && e@ == m,
        },
{
    match doc.member(key) {
        Some(v) => match v.as_u64() {
            Some(n) => Ok(Some(n)),
            None => Err(field_error(key, "must be an unsigned integer")),
        },
        None => Ok(None),
    }
}

/// An optional unsigned member narrowed to 32 bits.
pub open spec fn spec_opt_u32(d: JsonModel, key: Seq<char>) -> Result<Option<u32>, Seq<char>> {
    match spec_opt_u64(d, key) {
        Ok(Some(n)) => if n <= u32::MAX {
            Ok(Some(n as u32))
        } else {
            Err(spec_field_error(key, "is out of range"@))
        },
        Ok(None) => Ok(None),
        Err(m) => Err(m),
    }
}

fn get_opt_u32(doc: &JsonValue, key: &str) -> (r: Result<Option<u32>, String>)
    ensures
        match spec_opt_u32(doc.model(), key@) {
            Ok(on) => r == Result::<Option<u32>, String>::Ok(on),
            Err(m) => r matches Err(e) && e@ == m,
        },
{
    match get_opt_u64(doc, key) {
        Ok(Some(n)) => {
            if n <= u32::MAX as u64 {
                Ok(Some(n as u32))
            } else {
                Err(field_error(key, "is out of range"))
            }
        },
        Ok(None) => Ok(None),
        Err(e) => Err(e),
    }
}

/// An optional unsigned member narrowed to the machine's word size.
pub open spec fn spec_opt_usize(d: JsonModel, key: Seq<char>) -> Result<Option<usize>, Seq<char>> {
    match spec_opt_u64(d, key) {
        Ok(Some(n)) => if n <= usize::MAX {
            Ok(Some(n as usize))
        } else {
            Err(spec_field_error(key, "is out of range"@))
        },
        Ok(None) => Ok(None),
        Err(m) => Err(m),
    }
}

fn get_opt_usize(doc: &JsonValue, key: &str) -> (r: Result<Option<usize>, String>)
    ensures
        match spec_opt_usize(doc.model(), key@) {
            Ok(on) => r == Result::<Option<usize>, String>::Ok(on),
            Err(m) => r matches Err(e) && e@ == m,
        },
{
    match get_opt_u64(doc, key) {
        Ok(Some(n)) => {
            if n <= usize::MAX as u64 {
                Ok(Some(n as usize))
            } else {
                Err(field_error(key, "is out of range"))
            }
        },
        Ok(None) => Ok(None),
        Err(e) => Err(e),
    }
}

/// The texts of a list of string values, or why one element is unusable.
pub open spec fn spec_strings_of(items: Seq<JsonModel>, key: Seq<char>) -> Result<
    Seq<Seq<char>>,
    Seq<char>,
>
    decreases items.len(),
{
    if items.len() == 0 {
        Ok(Seq::empty())
    } else {
        match items[0] {
            JsonModel::Str(s) => match spec_strings_of(items.drop_first(), key) {
                Ok(rest) => Ok(seq![s] + rest),
                Err(m) => Err(m),
            },
            _ => Err(spec_field_error(key, "must be a list of strings"@)),
        }
    }
}

/// An optional list-of-strings member; absence means the empty list.
pub open spec fn spec_string_list(d: JsonModel, key: Seq<char>) -> Result<
    Seq<Seq<char>>,
    Seq<char>,
> {
    match spec_member(d, key) {
        Some(JsonModel::Arr(items)) => spec_strings_of(items, key),
        Some(_) => Err(spec_field_error(key, "must be a list"@)),
        None => Ok(Seq::empty()),
    }
}

fn get_string_list(doc: &JsonValue, key: &str) -> (r: Result<Vec<String>, String>)
    ensures
        match spec_string_list(doc.model(), key@) {
            Ok(ss) => r matches Ok(v) && v.deep_view() == ss,
            Err(m) => r matches Err(e) && e@ == m,
        },
{
    match doc.member(key) {
        Some(v) => match v.as_array() {
            Some(items) => {
                let ghost ms = v.model()->Arr_0;
                let mut out: Vec<String> = Vec::new();
                let mut i: usize = 0;
                proof {
                    assert(ms.skip(0) =~= ms);
                    assert(out.deep_view() =~= Seq::<Seq<char>>::empty());
                }
                while i < items.len()
                    invariant
                        i <= items@.len() == ms.len(),
                        spec_string_list(doc.model(), key@) == spec_strings_of(ms, key@),
                        forall|j: int| 0 <= j < ms.len() ==> (#[trigger] items@[j]).model() == ms[j],
                        out@.len() == i,
                        match spec_strings_of(ms, key@) {
                            Ok(ss) => spec_strings_of(ms.skip(i as int), key@) matches Ok(rest)
                                && ss =~= out.deep_view() + rest,
                            Err(m) => spec_strings_of(ms.skip(i as int), key@) == Result::<
                                Seq<Seq<char>>,
                                Seq<char>,
                            >::Err(m),
                        },
                    decreases items.len() - i,
                {
                    let ghost rest = ms.skip(i as int);
                    proof {
                        assert(rest[0] == ms[i as int]);
                        assert(rest.drop_first() =~= ms.skip(i + 1));
                    }
                    match items[i].as_str() {
                        Some(s) => {
                            let ghost before = out.deep_view();
                            out.push(s.clone());
                            proof {
                                assert(out.deep_view() =~= before.push(ms[i as int]->Str_0));
                            }
                        },
                        None => {
                            proof {
                                assert(!(ms[i as int] is Str));
                                assert(spec_strings_of(rest, key@) is Err);
                            }
                            return Err(field_error(key, "must be a list of strings"));
                        },
                    }
                    i = i + 1;
                }
                proof {
                    assert(ms.skip(ms.len() as int) =~= Seq::<JsonModel>::empty());
                }
                Ok(out)
            },
            None => Err(field_error(key, "must be a list")),
        },
        None => Ok(Vec::new()),
    }
}

/// One seed entry: its two string fields, or why one is unusable.
pub open spec fn spec_seed_of(item: JsonModel) -> Result<SeedFactModel, Seq<char>> {
    match spec_string_field(item, "id"@) {
        Ok(id) => match spec_string_field(item, "content"@) {
            Ok(content) => Ok(SeedFactModel { id, content }),
            Err(m) => Err(m),
        },
        Err(m) => Err(m),
    }
}

/// The seed entries of a list, in order, or the first failure.
pub open spec fn spec_seeds_of(items: Seq<JsonModel>) -> Result<Seq<SeedFactModel>, Seq<char>>
    decreases items.len(),
{
    if items.len() == 0 {
        Ok(Seq::empty())
    } else {
        match spec_seed_of(items[0]) {
            Ok(seed) => match spec_seeds_of(items.drop_first()) {
                Ok(rest) => Ok(seq![seed] + rest),
                Err(m) => Err(m),
            },
            Err(m) => Err(m),
        }
    }
}

/// The required `seeds` member: its entries, or why it is unusable.
pub open spec fn spec_seeds(d: JsonModel) -> Result<Seq<SeedFactModel>, Seq<char>> {
    match spec_member(d, "seeds"@) {
        Some(JsonModel::Arr(items)) => spec_seeds_of(items),
        Some(_) => Err(spec_field_error("seeds"@, "must be a list"@)),
        None => Err(spec_field_error("seeds"@, "is missing"@)),
    }
}

fn parse_seeds(doc: &JsonValue) -> (r: Result<Vec<SeedFact>, String>)
    ensures
        match spec_seeds(doc.model()) {
            Ok(ss) => r matches Ok(v) && v.deep_view() == ss,
            Err(m) => r matches Err(e) && e@ == m,
        },
{
    match doc.member("seeds") {
        Some(v) => match v.as_array() {
            Some(items) => {
                let ghost ms = v.model()->Arr_0;
                let mut out: Vec<SeedFact> = Vec::new();
                let mut i: usize = 0;
                proof {
                    assert(ms.skip(0) =~= ms);
                    assert(out.deep_view() =~= Seq::<SeedFactModel>::empty());
                }
                while i < items.len()
                    invariant
                        i <= items@.len() == ms.len(),
                        spec_seeds(doc.model()) == spec_seeds_of(ms),
                        forall|j: int| 0 <= j < ms.len() ==> (#[trigger] items@[j]).model() == ms[j],
                        out@.len() == i,
                        match spec_seeds_of(ms) {
                            Ok(ss) => spec_seeds_of(ms.skip(i as int)) matches Ok(rest) && ss
                                =~= out.deep_view() + rest,
                            Err(m) => spec_seeds_of(ms.skip(i as int)) == Result::<
                                Seq<SeedFactModel>,
                                Seq<char>,
                            >::Err(m),
                        },
                    decreases items.len() - i,
                {
                    let ghost rest = ms.skip(i as int);
                    proof {
                        assert(rest[0] == ms[i as int]);
                        assert(rest.drop_first() =~= ms.skip(i + 1));
                    }
                    proof {
                        assert(items@[i as int].model() == ms[i as int]);
                    }
                    let id = match get_string_field(&items[i], "id") {
                        Ok(s) => s,
                        Err(e) => {
                            proof {
                                assert(spec_seed_of(ms[i as int]) == Result::<
                                    SeedFactModel,
                                    Seq<char>,
                                >::Err(e@));
                                assert(spec_seeds_of(rest) is Err);
                            }
                            return Err(e);
                        },
                    };
                    let content = match get_string_field(&items[i], "content") {
                        Ok(s) => s,
                        Err(e) => {
                            proof {
                                assert(spec_seed_of(ms[i as int]) == Result::<
                                    SeedFactModel,
                                    Seq<char>,
                                >::Err(e@));
                                assert(spec_seeds_of(rest) is Err);
                            }
                            return Err(e);
                        },
                    };
                    let seed = SeedFact { id, content };
                    let ghost before = out.deep_view();
                    out.push(seed);
                    proof {
                        assert(out.deep_view() =~= before.push(
                            spec_seed_of(ms[i as int])->Ok_0,
                        ));
                    }
                    i = i + 1;
                }
                proof {
                    assert(ms.skip(ms.len() as int) =~= Seq::<JsonModel>::empty());
                }
                Ok(out)
            },
            None => Err(field_error("seeds", "must be a list")),
        },
        None => Err(field_error("seeds", "is missing")),
    }
}

/// The expectation record of a document: every optional field read in a
/// fixed order, or the first failure.
pub open spec fn spec_expectation(d: JsonModel) -> Result<ExpectationModel, Seq<char>> {
    match spec_opt_bool(d, "converged"@) {
        Err(m) => Err(m),
        Ok(converged) => match spec_opt_u32(d, "max_cycles"@) {
            Err(m) => Err(m),
            Ok(max_cycles) => match spec_opt_usize(d, "min_facts"@) {
                Err(m) => Err(m),
                Ok(min_facts) => match spec_string_list(d, "must_contain_facts"@) {
                    Err(m) => Err(m),
                    Ok(must_contain_facts) => match spec_string_list(d, "must_not_contain_facts"@) {
                        Err(m) => Err(m),
                        Ok(must_not_contain_facts) => match spec_opt_usize(d, "min_strategies"@) {
                            Err(m) => Err(m),
                            Ok(min_strategies) => match spec_opt_usize(d, "min_evaluations"@) {
                                Err(m) => Err(m),
                                Ok(min_evaluations) => match spec_opt_u64(d, "max_latency_ms"@) {
                                    Err(m) => Err(m),
                                    Ok(max_latency_ms) => match spec_string_list(
                                        d,
                                        "required_context_keys"@,
                                    ) {
                                        Err(m) => Err(m),
                                        Ok(required_context_keys) => Ok(
                                            ExpectationModel {
                                                converged,
                                                max_cycles,
                                                min_facts,
                                                must_contain_facts,
                                                must_not_contain_facts,
                                                min_strategies,
                                                min_evaluations,
                                                max_latency_ms,
                                                required_context_keys,
                                            },
                                        ),
                                    },
                                },
                            },
                        },
                    },
                },
            },
        },
    }
}

fn parse_expectation(doc: &JsonValue) -> (r: Result<EvalExpectation, String>)
    ensures
        match spec_expectation(doc.model()) {
            Ok(em) => r matches Ok(e) && e@ == em,
            Err(m) => r matches Err(e) && e@ == m,
        },
{
    let converged = match get_opt_bool(doc, "converged") {
        Ok(v) => v,
        Err(e) => {
            return Err(e);
        },
    };
    let max_cycles = match get_opt_u32(doc, "max_cycles") {
        Ok(v) => v,
        Err(e) => {
            return Err(e);
        },
    };
    let min_facts = match get_opt_usize(doc, "min_facts") {
        Ok(v) => v,
        Err(e) => {
            return Err(e);
        },
    };
    let must_contain_facts = match get_string_list(doc, "must_contain_facts") {
        Ok(v) => v,
        Err(e) => {
            return Err(e);
        },
    };
    let must_not_contain_facts = match get_string_list(doc, "must_not_contain_facts") {
        Ok(v) => v,
        Err(e) => {
            return Err(e);
        },
    };
    let min_strategies = match get_opt_usize(doc, "min_strategies") {
        Ok(v) => v,
        Err(e) => {
            return Err(e);
        },
    };
    let min_evaluations = match get_opt_usize(doc, "min_evaluations") {
        Ok(v) => v,
        Err(e) => {
            return Err(e);
        },
    };
    let max_latency_ms = match get_opt_u64(doc, "max_latency_ms") {
        Ok(v) => v,
        Err(e) => {
            return Err(e);
        },
    };
    let required_context_keys = match get_string_list(doc, "required_context_keys") {
        Ok(v) => v,
        Err(e) => {
            return Err(e);
        },
    };
    Ok(
        EvalExpectation {
            converged,
            max_cycles,
            min_facts,
            must_contain_facts,
            must_not_contain_facts,
            min_strategies,
            min_evaluations,
            max_latency_ms,
            required_context_keys,
        },
    )
}

/// The fixture a well-formed document describes, or the first failure:
/// `eval_id`, `description` and `pack` are required strings, `seeds` a
/// required list of id/content entries, `expected` a required member, and
/// `use_mock_llm` defaults to false when absent.
pub open spec fn spec_fixture_of(d: JsonModel) -> Result<FixtureModel, Seq<char>> {
    match spec_string_field(d, "eval_id"@) {
        Err(m) => Err(m),
        Ok(eval_id) => match spec_string_field(d, "description"@) {
            Err(m) => Err(m),
            Ok(description) => match spec_string_field(d, "pack"@) {
                Err(m) => Err(m),
                Ok(pack) => match spec_seeds(d) {
                    Err(m) => Err(m),
                    Ok(seeds) => match spec_member(d, "expected"@) {
                        None => Err(spec_field_error("expected"@, "is missing"@)),
                        Some(e) => match spec_expectation(e) {
                            Err(m) => Err(m),
                            Ok(expected) => match spec_opt_bool(d, "use_mock_llm"@) {
                                Err(m) => Err(m),
                                Ok(ob) => Ok(
                                    FixtureModel {
                                        eval_id,
                                        description,
                                        pack,
                                        seeds,
                                        expected,
                                        use_mock_llm: match ob {
                                            Some(b) => b,
                                            None => false,
                                        },
                                    },
                                ),
                            },
                        },
                    },
                },
            },
        },
    }
}

/// The fixture of a text, when the text is valid JSON describing one.
pub open spec fn spec_parse_fixture(text: Seq<char>) -> Option<FixtureModel> {
    match json_doc_of(text) {
        Some(d) => match spec_fixture_of(d) {
            Ok(f) => Some(f),
            Err(_) => None,
        },
        None => None,
    }
}

/// Parses one fixture document: the fixture mirroring the text's JSON
/// document, or a descriptive error when the text is not valid JSON or the
/// document breaks the schema.
pub fn parse_fixture(text: &str) -> (r: Result<EvalFixture, String>)
    ensures
        match json_doc_of(text@) {
            None => r is Err,
            Some(d) => match spec_fixture_of(d) {
                Ok(f) => r matches Ok(fx) && fx@ == f,
                Err(m) => r matches Err(e) && e@ == m,
            },
        },
        r matches Ok(fx) ==> spec_parse_fixture(text@) == Some(fx@),
        r is Err ==> spec_parse_fixture(text@) is None,
{
    let doc = match json_parse(text) {
        Ok(v) => v,
        Err(e) => {
            return Err(e);
        },
    };
    let eval_id = match get_string_field(&doc, "eval_id") {
        Ok(s) => s,
        Err(e) => {
            return Err(e);
        },
    };
    let description = match get_string_field(&doc, "description") {
        Ok(s) => s,
        Err(e) => {
            return Err(e);
        },
    };
    let pack = match get_string_field(&doc, "pack") {
        Ok(s) => s,
        Err(e) => {
            return Err(e);
        },
    };
    let seeds = match parse_seeds(&doc) {
        Ok(s) => s,
        Err(e) => {
            return Err(e);
        },
    };
    let expected = match doc.member("expected") {
        Some(v) => match parse_expectation(v) {
            Ok(exp) => exp,
            Err(e) => {
                return Err(e);
            },
        },
        None => {
            return Err(field_error("expected", "is missing"));
        },
    };
    let use_mock_llm = match get_opt_bool(&doc, "use_mock_llm") {
        Ok(Some(b)) => b,
        Ok(None) => false,
        Err(e) => {
            return Err(e);
        },
    };
    Ok(EvalFixture { eval_id, description, pack, seeds, expected, use_mock_llm })
}

/// Whether a fixture sequence is ordered by identifier.
pub open spec fn fixtures_sorted(s: Seq<FixtureModel>) -> bool {
    forall|k: int, l: int|
        0 <= k < l < s.len() ==> lex_le(#[trigger] s[k].eval_id, #[trigger] s[l].eval_id)
}

/// Whether fixture `a` orders at or before fixture `b`.
fn fixture_le(a: &EvalFixture, b: &EvalFixture) -> (r: bool)
    ensures
        r == lex_le(a@.eval_id, b@.eval_id),
{
    let av = str_to_chars(a.eval_id.as_str());
    let bv = str_to_chars(b.eval_id.as_str());
    lex_le_chars(&av, &bv)
}

proof fn lemma_insert_to_multiset(s: Seq<FixtureModel>, k: int, x: FixtureModel)
    requires
        0 <= k <= s.len(),
    ensures
        s.insert(k, x).to_multiset() =~= s.to_multiset().insert(x),
{
    broadcast use group_to_multiset_ensures;

    assert(s.insert(k, x) =~= s.take(k).push(x) + s.skip(k));
    lemma_multiset_commutative(s.take(k).push(x), s.skip(k));
    lemma_multiset_commutative(s.take(k), s.skip(k));
    assert(s.take(k) + s.skip(k) =~= s);
    assert(s.take(k).push(x).to_multiset() =~= s.take(k).to_multiset().insert(x));
}

/// Sorts fixtures by identifier: the result is ordered and holds exactly the
/// same fixtures.
pub fn sort_fixtures(fixtures: &mut Vec<EvalFixture>)
    ensures
        final (fixtures)@.len() == old(fixtures)@.len(),
        fixtures_sorted(final (fixtures).deep_view()),
        final (fixtures).deep_view().to_multiset() == old(fixtures).deep_view().to_multiset(),
{
    broadcast use group_to_multiset_ensures;

    let ghost orig = fixtures.deep_view();
    if fixtures.len() <= 1 {
        return ;
    }
    let mut i: usize = 1;
    while i < fixtures.len()
        invariant
            1 <= i <= fixtures.len(),
            fixtures@.len() == orig.len(),
            fixtures_sorted(fixtures.deep_view().take(i as int)),
            fixtures.deep_view().to_multiset() == orig.to_multiset(),
        decreases fixtures.len() - i,
    {
        let ghost dv = fixtures.deep_view();
        let mut k: usize = 0;
        while k < i && fixture_le(&fixtures[k], &fixtures[i])
            invariant
                0 <= k <= i < fixtures.len(),
                dv == fixtures.deep_view(),
                forall|j: int|
                    0 <= j < k ==> lex_le((#[trigger] dv[j]).eval_id, dv[i as int].eval_id),
            decreases i - k,
        {
            k = k + 1;
        }
        if k < i {
            proof {
                lemma_lex_total(dv[k as int].eval_id, dv[i as int].eval_id);
            }
            let x = fixtures.remove(i);
            fixtures.insert(k, x);
            proof {
                let dv2 = fixtures.deep_view();
                assert(dv2 =~= dv.remove(i as int).insert(k as int, dv[i as int]));
                // the same fixtures, rearranged
                dv.to_multiset_ensures();
                assert(dv.remove(i as int).to_multiset() =~= dv.to_multiset().remove(
                    dv[i as int],
                ));
                lemma_insert_to_multiset(dv.remove(i as int), k as int, dv[i as int]);
                assert(dv.contains(dv[i as int])) by {
                    assert(dv[i as int] == dv[i as int]);
                }
                assert(dv.to_multiset().count(dv[i as int]) > 0);
                assert(dv2.to_multiset() =~= dv.to_multiset());
                // the longer prefix is sorted
                assert forall|a: int, b: int| 0 <= a < b < i + 1 implies lex_le(
                    (#[trigger] dv2[a]).eval_id,
                    (#[trigger] dv2[b]).eval_id,
                ) by {
                    let x_id = dv[i as int].eval_id;
                    let p = dv.take(i as int);
                    assert(forall|j: int| 0 <= j < i ==> #[trigger] p[j] == dv[j]);
                    if b < k {
                        assert(dv2[a] == dv[a] && dv2[b] == dv[b]);
                        assert(lex_le(p[a].eval_id, p[b].eval_id));
                    } else if b == k {
                        assert(dv2[b] == dv[i as int]);
                        if a < k {
                            assert(dv2[a] == dv[a]);
                        }
                    } else {
                        assert(dv2[b] == dv[b - 1]);
                        assert(k <= b - 1 < i);
                        assert(lex_le(x_id, dv[k as int].eval_id));
                        if k < b - 1 {
                            assert(lex_le(p[k as int].eval_id, p[b - 1].eval_id));
                            lemma_lex_trans(x_id, dv[k as int].eval_id, dv[b - 1].eval_id);
                        }
                        assert(lex_le(x_id, dv[b - 1].eval_id));
                        if a < k {
                            assert(dv2[a] == dv[a]);
                            lemma_lex_trans(dv[a].eval_id, x_id, dv[b - 1].eval_id);
                        } else if a == k {
                            assert(dv2[a] == dv[i as int]);
                        } else {
                            assert(dv2[a] == dv[a - 1]);
                            assert(k <= a - 1 < b - 1 < i);
                            assert(lex_le(p[a - 1].eval_id, p[b - 1].eval_id));
                        }
                    }
                }
            }
        } else {
            proof {
                assert forall|a: int, b: int| 0 <= a < b < i + 1 implies lex_le(
                    (#[trigger] fixtures.deep_view()[a]).eval_id,
                    (#[trigger] fixtures.deep_view()[b]).eval_id,
                ) by {
                    let p = dv.take(i as int);
                    assert(forall|j: int| 0 <= j < i ==> #[trigger] p[j] == dv[j]);
                    if b == i as int {
                        assert(lex_le(dv[a].eval_id, dv[i as int].eval_id));
                    } else {
                        assert(lex_le(p[a].eval_id, p[b].eval_id));
                    }
                }
            }
        }
        i = i + 1;
    }
    proof {
        assert(fixtures.deep_view().take(fixtures.deep_view().len() as int) =~= fixtures.deep_view());
    }
}

/// The fixtures of the parse-accepted texts, in input order.
pub open spec fn spec_accepted_fixtures(texts: Seq<Seq<char>>) -> Seq<FixtureModel>
    decreases texts.len(),
{
    if texts.len() == 0 {
        Seq::empty()
    } else {
        spec_accepted_fixtures(texts.drop_last()) + (match spec_parse_fixture(texts.last()) {
            Some(f) => seq![f],
            None => Seq::empty(),
        })
    }
}

/// Parses every document, keeps exactly the well-formed ones, and returns
/// them sorted by identifier for a reproducible run order.
pub fn collect_fixtures(texts: &Vec<String>) -> (fixtures: Vec<EvalFixture>)
    ensures
        fixtures_sorted(fixtures.deep_view()),
        fixtures.deep_view().to_multiset() == spec_accepted_fixtures(
            texts.deep_view(),
        ).to_multiset(),
{
    let ghost ts = texts.deep_view();
    let mut out: Vec<EvalFixture> = Vec::new();
    let mut i: usize = 0;
    proof {
        assert(ts.take(0) =~= Seq::<Seq<char>>::empty());
        assert(out.deep_view() =~= spec_accepted_fixtures(ts.take(0)));
    }
    while i < texts.len()
        invariant
            i <= texts.len(),
            ts == texts.deep_view(),
            out.deep_view() =~= spec_accepted_fixtures(ts.take(i as int)),
        decreases texts.len() - i,
    {
        proof {
            assert(ts.take(i as int + 1).drop_last() =~= ts.take(i as int));
            assert(ts.take(i as int + 1).last() == ts[i as int]);
            assert(ts[i as int] == texts@[i as int]@);
        }
        match parse_fixture(texts[i].as_str()) {
            Ok(f) => {
                let ghost before = out.deep_view();
                let ghost fm = f@;
                out.push(f);
                proof {
                    assert(out.deep_view() =~= before.push(fm));
                }
            },
            Err(_) => {},
        }
        i = i + 1;
    }
    proof {
        assert(ts.take(texts.deep_view().len() as int) =~= ts);
    }
    sort_fixtures(&mut out);
    out
}

} // verus!
