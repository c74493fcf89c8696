//! Extra fields for the log output.
//!
//! An [`ExtraFields`] store holds at most one JSON object. Whatever it holds
//! is merged into every event that is formatted with it.

use vstd::prelude::*;
use crate::logging::json::{
    as_object, as_object_mut, distinct_keys, get_mut, insert, into_object, members,
    object_entries, value_model, Json, JsonMap, Members,
};
use crate::logging::merge::{lemma_merge_step, merge_members};

verus! {

/// Why [`set_extra_fields`] refused a value.
#[derive(Debug)]
pub enum SetExtraFieldsError {
    /// The data could not be converted into JSON.
    InvalidJson(serde_json::Error),
    /// The data is JSON, but not a JSON object.
    NotObject,
}

impl SetExtraFieldsError {
    /// What went wrong, in words.
    pub fn message(&self) -> (text: &'static str)
        ensures
            text@ == match self {
                SetExtraFieldsError::InvalidJson(_) => "the data cannot be converted into JSON"@,
                SetExtraFieldsError::NotObject => "the data cannot be converted into a JSON object"@,
            },
    {
        match self {
            SetExtraFieldsError::InvalidJson(_) => "the data cannot be converted into JSON",
            SetExtraFieldsError::NotObject => "the data cannot be converted into a JSON object",
        }
    }
}

impl From<serde_json::Error> for SetExtraFieldsError {
    fn from(error: serde_json::Error) -> (r: SetExtraFieldsError) {
        SetExtraFieldsError::InvalidJson(error)
    }
}

impl vstd::std_specs::convert::FromSpecImpl<serde_json::Error> for SetExtraFieldsError {
    open spec fn obeys_from_spec() -> bool {
        true
    }

    open spec fn from_spec(error: serde_json::Error) -> SetExtraFieldsError {
        SetExtraFieldsError::InvalidJson(error)
    }
}

/// The extra fields that are in force: none, or one JSON object.
pub struct ExtraFields {
    fields: Option<JsonMap>,
}

impl View for ExtraFields {
    type V = Option<Members>;

    closed spec fn view(&self) -> Option<Members> {
        match self.fields {
            Some(m) => Some(object_entries(m)),
            None => None,
        }
    }
}

/// What a store holds after `converted` was offered to it while it held
/// `before`: a JSON object takes the place of whatever was there, anything
/// else leaves it as it was.
pub open spec fn after_set(before: Option<Members>, converted: Result<
    serde_json::Value,
    serde_json::Error,
>) -> Option<Members> {
    match converted {
        Ok(v) => match value_model(v) {
            Json::Object(members) => Some(members),
            _ => before,
        },
        Err(_) => before,
    }
}

/// `members` with the extra fields `extra`, if there are any, merged into it.
pub open spec fn merged_with(members: Members, extra: Option<Members>) -> Members {
    match extra {
        Some(overlay) => merge_members(members, overlay),
        None => members,
    }
}

impl ExtraFields {
    /// A store that holds `initial`.
    pub fn new(initial: Option<JsonMap>) -> (store: ExtraFields)
        ensures
            store@ == match initial {
                Some(m) => Some(object_entries(m)),
                None => None,
            },
    {
        ExtraFields { fields: initial }
    }

    /// Replaces the extra fields by `converted`, the outcome of converting some
    /// data into JSON. Anything but a JSON object is refused, and the store
    /// then keeps what it held.
    pub fn set(&mut self, converted: Result<serde_json::Value, serde_json::Error>) -> (r: Result<
        (),
        SetExtraFieldsError,
    >)
        ensures
            final(self)@ == after_set(old(self)@, converted),
            match converted {
                Ok(v) => if value_model(v) is Object {
                    r is Ok
                } else {
                    r == Err::<(), SetExtraFieldsError>(SetExtraFieldsError::NotObject)
                },
                Err(e) => r == Err::<(), SetExtraFieldsError>(SetExtraFieldsError::InvalidJson(e)),
            },
    {
        match converted {
            Err(e) => Err(SetExtraFieldsError::from(e)),
            Ok(v) => match into_object(v) {
                Some(m) => {
                    self.fields = Some(m);
                    Ok(())
                },
                None => Err(SetExtraFieldsError::NotObject),
            },
        }
    }

    /// Drops the extra fields.
    pub fn clear(&mut self)
        ensures
            final(self)@ is None,
    {
        self.fields = None;
    }

    /// The extra fields that are in force.
    pub fn snapshot(&self) -> (r: Option<&JsonMap>)
        ensures
            self@ == match r {
                Some(m) => Some(object_entries(*m)),
                None => None,
            },
    {
        self.fields.as_ref()
    }
}

/// One call that changes a store.
pub enum StoreCall {
    /// A call of [`ExtraFields::set`] with this outcome of a conversion.
    SetFields(Result<serde_json::Value, serde_json::Error>),
    /// A call of [`ExtraFields::clear`].
    ClearFields,
}

/// What a store that held `before` holds after `calls`, made one after
/// another.
pub open spec fn after_calls(before: Option<Members>, calls: Seq<StoreCall>) -> Option<Members>
    decreases calls.len(),
{
    if calls.len() == 0 {
        before
    } else {
        match calls.last() {
            StoreCall::SetFields(converted) => after_set(
                after_calls(before, calls.drop_last()),
                converted,
            ),
            StoreCall::ClearFields => None,
        }
    }
}

/// `call` is a call of `set` with the object `members`.
pub open spec fn sets_object(call: StoreCall, members: Members) -> bool {
    match call {
        StoreCall::SetFields(Ok(v)) => value_model(v) == Json::Object(members),
        _ => false,
    }
}

/// A store never mixes the fields of two calls: whatever calls it has seen,
/// one after another, it holds nothing, or what it held at first, or the
/// whole object of one of the calls of `set`.
pub proof fn lemma_store_never_mixes(before: Option<Members>, calls: Seq<StoreCall>)
    ensures
        after_calls(before, calls) is None || after_calls(before, calls) == before || exists|
            i: int,
        |
            0 <= i < calls.len() && sets_object(
                #[trigger] calls[i],
                after_calls(before, calls).unwrap(),
            ),
    decreases calls.len(),
{
    if calls.len() > 0 {
        let earlier = calls.drop_last();
        let last = calls.len() - 1;
        lemma_store_never_mixes(before, earlier);
        let held = after_calls(before, earlier);
        let now = after_calls(before, calls);
        if now is Some && now != before {
            if now == held {
                let i = choose|i: int|
                    0 <= i < earlier.len() && sets_object(#[trigger] earlier[i], held.unwrap());
                assert(calls[i] == earlier[i]);
            } else {
                assert(calls[last] == calls.last());
                assert(sets_object(calls[last], now.unwrap()));
            }
        }
    }
}

/// Configures the extra fields that are added to every log record.
///
/// `converted` is the outcome of converting the caller's data into JSON. This
/// may be called any number of times; the fields set before are dropped.
pub fn set_extra_fields(
    store: &mut ExtraFields,
    converted: Result<serde_json::Value, serde_json::Error>,
) -> (r: Result<(), SetExtraFieldsError>)
    ensures
        final(store)@ == after_set(old(store)@, converted),
        match converted {
            Ok(v) => if value_model(v) is Object {
                r is Ok
            } else {
                r == Err::<(), SetExtraFieldsError>(SetExtraFieldsError::NotObject)
            },
            Err(e) => r == Err::<(), SetExtraFieldsError>(SetExtraFieldsError::InvalidJson(e)),
        },
{
    store.set(converted)
}

/// Clears all extra fields set by [`set_extra_fields`].
pub fn clear_extra_fields(store: &mut ExtraFields)
    ensures
        final(store)@ is None,
{
    store.clear()
}

/// Deep merges the extra fields into `json_map`.
pub fn merge_extra_fields(store: &ExtraFields, json_map: JsonMap) -> (merged: JsonMap)
    ensures
        object_entries(merged) == merged_with(object_entries(json_map), store@),
{
    let mut merged = json_map;
    match store.snapshot() {
        Some(extra) => extend_json_map(&mut merged, extra),
        None => {},
    }
    merged
}

/// Deep merges `b` into `a`.
///
/// A member of `b` whose key `a` lacks is added after the members of `a`.
/// Where both have the key and both values are objects, the two are merged in
/// turn; otherwise the value of `b` replaces that of `a`.
pub fn extend_json_map(a: &mut JsonMap, b: &JsonMap)
    ensures
        object_entries(*final(a)) == merge_members(object_entries(*old(a)), object_entries(*b)),
    decreases object_entries(*b),
{
    let items = members(b);
    let ghost base = object_entries(*a);
    let ghost overlay = object_entries(*b);
    proof {
        assert(merge_members(base, overlay.take(0)) =~= base);
    }
    let mut i: usize = 0;
    while i < items.len()
        invariant
            i <= items.len() == overlay.len(),
            overlay == object_entries(*b),
            distinct_keys(overlay),
            forall|j: int|
                0 <= j < overlay.len() ==> (#[trigger] overlay[j]).0 == items@[j].key@
                    && overlay[j].1 == value_model(*items@[j].value),
            object_entries(*a) == merge_members(base, overlay.take(i as int)),
        decreases items.len() - i,
    {
        let key = items[i].key;
        let value = items[i].value;
        match get_mut(a, key.as_str()) {
            Some(slot) => match as_object(value) {
                Some(inner_b) => match as_object_mut(slot) {
                    Some(inner_a) => {
                        proof {
                            let nested = overlay[i as int].1;
                            assert(decreases_to!(nested => nested->Object_0));
                        }
                        extend_json_map(inner_a, inner_b);
                    },
                    None => {
                        *slot = value.clone();
                    },
                },
                None => {
                    *slot = value.clone();
                },
            },
            None => {
                insert(a, key.clone(), value.clone());
            },
        }
        proof {
            lemma_merge_step(base, overlay, i as int);
        }
        i += 1;
    }
    proof {
        assert(overlay.take(overlay.len() as int) =~= overlay);
    }
}

} // verus!
