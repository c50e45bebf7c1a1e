//! The structured payload a client submits with a job.
//!
//! The broker only ever inspects the top level of a payload: whether it is an
//! object, and that object's fields (the recovery path overwrites one audit
//! field). Anything deeper is carried through untouched, so a non-object
//! document, and a field value that is neither an integer nor a string, is
//! held in its serialized form.

use vstd::prelude::*;

verus! {

/// Mathematical form of a field value.
pub enum ValueModel {
    Int(i64),
    Text(Seq<char>),
    Raw(Seq<char>),
}

/// A single field value inside a top-level object.
pub enum FieldValue {
    /// A JSON integer.
    Int(i64),
    /// A JSON string.
    Text(String),
    /// Any other JSON document, in its serialized form; passed through.
    Raw(String),
}

impl View for FieldValue {
    type V = ValueModel;

    open spec fn view(&self) -> ValueModel {
        match self {
            FieldValue::Int(n) => ValueModel::Int(*n),
            FieldValue::Text(s) => ValueModel::Text(s@),
            FieldValue::Raw(s) => ValueModel::Raw(s@),
        }
    }
}

impl Clone for FieldValue {
    fn clone(&self) -> (r: Self)
        ensures
            r@ == self@,
    {
        match self {
            FieldValue::Int(n) => FieldValue::Int(*n),
            FieldValue::Text(s) => FieldValue::Text(s.clone()),
            FieldValue::Raw(s) => FieldValue::Raw(s.clone()),
        }
    }
}

/// One `key: value` pair of a top-level object.
pub struct JsonField {
    pub key: String,
    pub value: FieldValue,
}

impl View for JsonField {
    type V = (Seq<char>, ValueModel);

    open spec fn view(&self) -> (Seq<char>, ValueModel) {
        (self.key@, self.value@)
    }
}

impl Clone for JsonField {
    fn clone(&self) -> (r: Self)
        ensures
            r@ == self@,
    {
        JsonField { key: self.key.clone(), value: self.value.clone() }
    }
}

/// Mathematical form of a payload.
pub enum InputModel {
    Object(Seq<(Seq<char>, ValueModel)>),
    Other(Seq<char>),
}

/// A client-supplied payload: a top-level JSON object held field by field,
/// or any other JSON document in its serialized form.
pub enum InputValue {
    Object(Vec<JsonField>),
    Other(String),
}

/// The fields of a top-level object, as the model sees them.
pub open spec fn fields_model(fields: Seq<JsonField>) -> Seq<(Seq<char>, ValueModel)> {
    Seq::new(fields.len(), |i: int| fields[i]@)
}

impl View for InputValue {
    type V = InputModel;

    open spec fn view(&self) -> InputModel {
        match self {
            InputValue::Object(fields) => InputModel::Object(fields_model(fields@)),
            InputValue::Other(s) => InputModel::Other(s@),
        }
    }
}

impl Clone for InputValue {
    fn clone(&self) -> (r: Self)
        ensures
            r@ == self@,
    {
        match self {
            InputValue::Object(fields) => {
                let mut out: Vec<JsonField> = Vec::new();
                let mut i: usize = 0;
                while i < fields.len()
                    invariant
                        i <= fields.len(),
                        out@.len() == i,
                        forall|j: int| 0 <= j < i ==> out@[j]@ == fields@[j]@,
                    decreases fields.len() - i,
                {
                    out.push(fields[i].clone());
                    i += 1;
                }
                proof {
                    assert(fields_model(out@) =~= fields_model(fields@));
                }
                InputValue::Object(out)
            }
            InputValue::Other(s) => InputValue::Other(s.clone()),
        }
    }
}

/// A job-creation request: the client's structured input, or no input at all.
pub struct JobRequest {
    pub input: Option<InputValue>,
}

impl View for JobRequest {
    type V = Option<InputModel>;

    open spec fn view(&self) -> Option<InputModel> {
        match self.input {
            Some(v) => Some(v@),
            None => None,
        }
    }
}

impl Clone for JobRequest {
    fn clone(&self) -> (r: Self)
        ensures
            r@ == self@,
    {
        match &self.input {
            Some(v) => JobRequest { input: Some(v.clone()) },
            None => JobRequest { input: None },
        }
    }
}

/// The index of the first field named `key`, or -1 if there is none.
pub open spec fn field_index(fields: Seq<(Seq<char>, ValueModel)>, key: Seq<char>) -> int
    decreases fields.len(),
{
    if fields.len() == 0 {
        -1
    } else if fields[0].0 == key {
        0
    } else {
        let r = field_index(fields.drop_first(), key);
        if r < 0 {
            -1
        } else {
            r + 1
        }
    }
}

/// The object after `key` is set to `v`: the first field named `key` is
/// overwritten in place, and a missing key is appended at the end.
pub open spec fn with_field(
    fields: Seq<(Seq<char>, ValueModel)>,
    key: Seq<char>,
    v: ValueModel,
) -> Seq<(Seq<char>, ValueModel)> {
    let i = field_index(fields, key);
    if i < 0 {
        fields.push((key, v))
    } else {
        fields.update(i, (key, v))
    }
}

pub proof fn lemma_field_index_at(fields: Seq<(Seq<char>, ValueModel)>, key: Seq<char>, i: int)
    requires
        0 <= i < fields.len(),
        fields[i].0 == key,
        forall|j: int| 0 <= j < i ==> fields[j].0 != key,
    ensures
        field_index(fields, key) == i,
    decreases i,
{
    if i == 0 {
    } else {
        lemma_field_index_at(fields.drop_first(), key, i - 1);
    }
}

pub proof fn lemma_field_index_none(fields: Seq<(Seq<char>, ValueModel)>, key: Seq<char>)
    requires
        forall|j: int| 0 <= j < fields.len() ==> fields[j].0 != key,
    ensures
        field_index(fields, key) == -1,
    decreases fields.len(),
{
    if fields.len() == 0 {
    } else {
        lemma_field_index_none(fields.drop_first(), key);
    }
}

/// The audit field a recovered submission carries: it records when the
/// original attempt was staged.
pub open spec fn attempted_on_key() -> Seq<char> {
    "attempted_on"@
}

/// What a staged request looks like once the recovery path has marked it:
/// an object input gains (or overwrites) the `attempted_on` field with the
/// original staging timestamp; any other input is left untouched.
pub open spec fn augmented_model(req: Option<InputModel>, stamp: i64) -> Option<InputModel> {
    match req {
        Some(InputModel::Object(fields)) => Some(
            InputModel::Object(with_field(fields, attempted_on_key(), ValueModel::Int(stamp))),
        ),
        _ => req,
    }
}

/// Marks a staged request for recovery: an object input has its
/// `attempted_on` field set to the original staging timestamp; a non-object
/// or absent input is returned unmodified.
pub fn augment_request(req: JobRequest, stamp: i64) -> (r: JobRequest)
    ensures
        r@ == augmented_model(req@, stamp),
{
    match req.input {
        Some(InputValue::Object(mut fields)) => {
            let key: String = "attempted_on".to_owned();
            put_field(&mut fields, key, FieldValue::Int(stamp));
            JobRequest { input: Some(InputValue::Object(fields)) }
        }
        other => JobRequest { input: other },
    }
}

/// Sets `key` to `value` in a top-level object: the first field with that key
/// is overwritten, and the pair is appended when the key is absent.
#[verifier::loop_isolation(false)]
pub fn put_field(fields: &mut Vec<JsonField>, key: String, value: FieldValue)
    ensures
        fields_model(final(fields)@) == with_field(fields_model(old(fields)@), key@, value@),
{
    let ghost orig = fields_model(fields@);
    let mut i: usize = 0;
    while i < fields.len()
        invariant
            i <= fields.len(),
            fields_model(fields@) == orig,
            forall|j: int| 0 <= j < i ==> orig[j].0 != key@,
        decreases fields.len() - i,
    {
        if fields[i].key == key {
            proof {
                lemma_field_index_at(orig, key@, i as int);
            }
            let replaced = JsonField { key, value };
            let ghost pair = replaced@;
            fields.remove(i);
            fields.insert(i, replaced);
            proof {
                assert(fields_model(fields@) =~= orig.update(i as int, pair));
            }
            return;
        }
        i += 1;
    }
    proof {
        lemma_field_index_none(orig, key@);
    }
    let appended = JsonField { key, value };
    let ghost pair = appended@;
    fields.push(appended);
    proof {
        assert(fields_model(fields@) =~= orig.push(pair));
    }
}

} // verus!
