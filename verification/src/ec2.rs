//! Finding the name of an instance in what DescribeInstances answered.

use vstd::prelude::*;
use vstd::string::*;

verus! {

/// A tag of an instance.
#[derive(Clone, Debug, PartialEq, Eq)]
pub struct Tag {
    pub key: Option<String>,
    pub value: Option<String>,
}

/// An instance, as far as its name is concerned.
#[derive(Clone, Debug, PartialEq, Eq)]
pub struct Instance {
    pub tags: Option<Vec<Tag>>,
}

/// A reservation with its instances.
#[derive(Clone, Debug, PartialEq, Eq)]
pub struct Reservation {
    pub instances: Option<Vec<Instance>>,
}

/// Why no name was found for an instance.
#[derive(Debug, PartialEq, Eq)]
pub enum InstanceNameError {
    /// The call itself failed; the text says how.
    DescribeInstancesError(String),
    MissingReservations,
    EmptyReservations,
    MissingInstances,
    EmptyInstances,
    MissingTags,
    MissingNameTag,
}

/// The key of the tag that holds an instance's name.
pub open spec fn name_key() -> Seq<char> {
    "Name"@
}

/// A tag that names the instance: its key is `Name` and it has a value.
pub open spec fn is_name_tag(tag: Tag) -> bool {
    &&& tag.key matches Some(key) && key@ == name_key()
    &&& tag.value is Some
}

/// The value of the first tag that names the instance.
pub open spec fn name_tag_value(tags: Seq<Tag>) -> Option<String>
    decreases tags.len(),
{
    if tags.len() == 0 {
        None
    } else if is_name_tag(tags[0]) {
        tags[0].value
    } else {
        name_tag_value(tags.drop_first())
    }
}

/// The name that an answer of DescribeInstances gives to the instance asked
/// for: the value of the first naming tag of the first instance of the first
/// reservation; or the reason why there is none.
pub open spec fn instance_name_in(response: Result<Option<Vec<Reservation>>, String>) -> Result<
    String,
    InstanceNameError,
> {
    match response {
        Err(text) => Err(InstanceNameError::DescribeInstancesError(text)),
        Ok(None) => Err(InstanceNameError::MissingReservations),
        Ok(Some(reservations)) => if reservations@.len() == 0 {
            Err(InstanceNameError::EmptyReservations)
        } else {
            match reservations@[0].instances {
                None => Err(InstanceNameError::MissingInstances),
                Some(instances) => if instances@.len() == 0 {
                    Err(InstanceNameError::EmptyInstances)
                } else {
                    match instances@[0].tags {
                        None => Err(InstanceNameError::MissingTags),
                        Some(tags) => match name_tag_value(tags@) {
                            Some(name) => Ok(name),
                            None => Err(InstanceNameError::MissingNameTag),
                        },
                    }
                },
            }
        },
    }
}

/// The first naming tag, if any, stands at index `at`; it is found by looking
/// from `at` on, once the tags before it are known not to name the instance.
proof fn lemma_name_tag_value_skip(tags: Seq<Tag>, at: int)
    requires
        0 <= at <= tags.len(),
        forall|i: int| 0 <= i < at ==> !is_name_tag(tags[i]),
    ensures
        name_tag_value(tags) == name_tag_value(tags.skip(at)),
    decreases at,
{
    if at == 0 {
        assert(tags.skip(0) =~= tags);
    } else {
        lemma_name_tag_value_skip(tags.drop_first(), at - 1);
        assert(tags.drop_first().skip(at - 1) =~= tags.skip(at));
    }
}

/// Whether the tag names the instance.
fn names_instance(tag: &Tag) -> (found: bool)
    ensures
        found == is_name_tag(*tag),
{
    match &tag.key {
        Some(key) => {
            let wanted = String::from_str("Name");
            *key == wanted && tag.value.is_some()
        },
        None => false,
    }
}

/// The value of the first tag that names the instance, if there is one.
fn find_name(tags: &Vec<Tag>) -> (name: Option<String>)
    ensures
        name == name_tag_value(tags@),
{
    let mut at: usize = 0;
    while at < tags.len()
        invariant
            at <= tags.len(),
            forall|i: int| 0 <= i < at ==> !is_name_tag(tags@[i]),
        decreases tags.len() - at,
    {
        if names_instance(&tags[at]) {
            proof {
                lemma_name_tag_value_skip(tags@, at as int);
                assert(tags@.skip(at as int)[0] == tags@[at as int]);
            }
            return tags[at].value.clone();
        }
        at += 1;
    }
    proof {
        lemma_name_tag_value_skip(tags@, at as int);
    }
    None
}

/// Reads the name of the instance out of the answer to the DescribeInstances
/// call that asked for it; `response` holds the reservations of the answer, or
/// the text of the error where the call failed.
pub fn get_instance_name(response: Result<Option<Vec<Reservation>>, String>) -> (result: Result<
    String,
    InstanceNameError,
>)
    ensures
        result == instance_name_in(response),
{
    match response {
        Ok(reservations) => {
            if let Some(reservations) = reservations {
                if reservations.len() > 0 {
                    if let Some(instances) = &reservations[0].instances {
                        if instances.len() > 0 {
                            if let Some(tags) = &instances[0].tags {
                                if let Some(name) = find_name(tags) {
                                    return Ok(name);
                                }
                                return Err(InstanceNameError::MissingNameTag);
                            } else {
                                return Err(InstanceNameError::MissingTags);
                            }
                        } else {
                            return Err(InstanceNameError::EmptyInstances);
                        }
                    } else {
                        return Err(InstanceNameError::MissingInstances);
                    }
                } else {
                    return Err(InstanceNameError::EmptyReservations);
                }
            } else {
                return Err(InstanceNameError::MissingReservations);
            }
        },
        Err(err) => Err(InstanceNameError::DescribeInstancesError(err)),
    }
}

} // verus!
