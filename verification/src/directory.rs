use vstd::prelude::*;

use crate::error::Error;
use crate::json::{
    copy_range, chars_eq_str, json_obj_lookup, jv, jvs, lemma_jvs_index, parse_json,
    sp_obj_lookup, sp_json, Json, JsonV,
};
use crate::mac::{sp_parse_mac, Mac};
use crate::text::chars_to_string;

verus! {

/// The model of a device handle: its display name and its six-byte
/// address.
pub struct DeviceV {
    pub name: Seq<char>,
    pub mac: Seq<u8>,
}

/// A device from the directory: a display name and an address.  Created
/// only by parsing a directory response entry.
#[derive(Debug)]
pub struct Device {
    pub name: String,
    uuid: Mac,
}

impl View for Device {
    type V = DeviceV;

    closed spec fn view(&self) -> DeviceV {
        DeviceV { name: self.name@, mac: self.uuid@ }
    }
}

impl Device {
    /// The six raw bytes of the device's address.
    pub fn uuid(&self) -> (r: [u8; 6])
        ensures
            r@ == self@.mac,
    {
        self.uuid.to_bytes()
    }

    /// The device's address.
    pub fn mac(&self) -> (r: Mac)
        ensures
            r@ == self@.mac,
    {
        self.uuid
    }
}

/// What a directory attribute entry denotes: a (name, value) pair of
/// strings; anything else is a malformed attribute.
pub open spec fn sp_attr(j: JsonV) -> Option<(Seq<char>, Seq<char>)> {
    match j {
        JsonV::Obj(ms) => match sp_obj_lookup(ms, "name"@) {
            Some(n) => match n {
                JsonV::Str(nc) => match sp_obj_lookup(ms, "value"@) {
                    Some(v) => match v {
                        JsonV::Str(vc) => Some((nc, vc)),
                        _ => None,
                    },
                    None => None,
                },
                _ => None,
            },
            None => None,
        },
        _ => None,
    }
}

/// Whether every entry of an attribute list is a well-formed attribute.
pub open spec fn sp_attrs_ok(items: Seq<JsonV>) -> bool
    decreases items.len(),
{
    items.len() == 0 || (sp_attr(items[0]) is Some && sp_attrs_ok(items.drop_first()))
}

/// The display name an attribute list yields: the value of the first
/// attribute named `"name"`.  A list with a malformed attribute or
/// without a `"name"` attribute yields nothing.
pub open spec fn sp_attr_name(items: Seq<JsonV>) -> Option<Seq<char>>
    decreases items.len(),
{
    if items.len() == 0 {
        None
    } else {
        match sp_attr(items[0]) {
            None => None,
            Some(p) => if p.0 == "name"@ {
                if sp_attrs_ok(items.drop_first()) {
                    Some(p.1)
                } else {
                    None
                }
            } else {
                sp_attr_name(items.drop_first())
            },
        }
    }
}

/// The device record a directory entry denotes: its `deviceUuid` member
/// parsed as a six-byte address, and its display name from the entry's
/// attribute list.  The absence of a name is a failure of the record,
/// not a record with an empty name.
pub open spec fn sp_record(j: JsonV) -> Result<DeviceV, Error> {
    match j {
        JsonV::Obj(ms) => match sp_obj_lookup(ms, "deviceUuid"@) {
            Some(u) => match u {
                JsonV::Str(uc) => match sp_parse_mac(uc) {
                    Some(mac) => match sp_obj_lookup(ms, "attributeList"@) {
                        Some(al) => match al {
                            JsonV::Arr(items) => match sp_attr_name(items) {
                                Some(nm) => Ok(DeviceV { name: nm, mac }),
                                None => Err(Error::Serialization),
                            },
                            _ => Err(Error::Serialization),
                        },
                        None => Err(Error::Serialization),
                    },
                    None => Err(Error::InvalidIdentifier),
                },
                _ => Err(Error::Serialization),
            },
            None => Err(Error::Serialization),
        },
        _ => Err(Error::Serialization),
    }
}

/// The devices a record list denotes, in order; the first bad record
/// fails the whole list.
pub open spec fn sp_records(items: Seq<JsonV>) -> Result<Seq<DeviceV>, Error>
    decreases items.len(),
{
    if items.len() == 0 {
        Ok(Seq::empty())
    } else {
        match sp_record(items[0]) {
            Err(e) => Err(e),
            Ok(d) => match sp_records(items.drop_first()) {
                Ok(ds) => Ok(seq![d] + ds),
                Err(e) => Err(e),
            },
        }
    }
}

/// What a directory response body yields: the devices of its
/// `deviceList` array, in response order; a body that is not JSON is
/// transport trouble, and any malformed record fails the whole fetch.
pub open spec fn sp_directory(s: Seq<char>) -> Result<Seq<DeviceV>, Error> {
    match sp_json(s) {
        None => Err(Error::Transport),
        Some(j) => match j {
            JsonV::Obj(ms) => match sp_obj_lookup(ms, "deviceList"@) {
                Some(dl) => match dl {
                    JsonV::Arr(items) => sp_records(items),
                    _ => Err(Error::Serialization),
                },
                None => Err(Error::Serialization),
            },
            _ => Err(Error::Serialization),
        },
    }
}

/// The models of a device sequence, in order.
pub open spec fn dvs(ds: Seq<Device>) -> Seq<DeviceV> {
    Seq::new(ds.len(), |k: int| ds[k]@)
}

fn attr_fields<'a>(j: &'a Json) -> (r: Option<(&'a Vec<char>, &'a Vec<char>)>)
    ensures
        match r {
            Some(p) => sp_attr(jv(*j)) == Some((p.0@, p.1@)),
            None => sp_attr(jv(*j)) is None,
        },
{
    match j {
        Json::Obj(ms) => match json_obj_lookup(ms, "name") {
            Some(n) => match n {
                Json::Str(nc) => match json_obj_lookup(ms, "value") {
                    Some(v) => match v {
                        Json::Str(vc) => Some((nc, vc)),
                        _ => None,
                    },
                    None => None,
                },
                _ => None,
            },
            None => None,
        },
        _ => None,
    }
}

fn attrs_ok_from(items: &Vec<Json>, i: usize) -> (r: bool)
    requires
        i <= items@.len(),
    ensures
        r == sp_attrs_ok(jvs(items@).subrange(i as int, items@.len() as int)),
    decreases items@.len() - i,
{
    proof {
        lemma_jvs_index(items@);
    }
    let ghost sub = jvs(items@).subrange(i as int, items@.len() as int);
    if i == items.len() {
        proof {
            assert(sub.len() == 0);
        }
        true
    } else {
        proof {
            assert(sub[0] == jv(items@[i as int]));
            assert(jvs(items@).subrange(i + 1, items@.len() as int) =~= sub.drop_first());
        }
        match attr_fields(&items[i]) {
            Some(_) => attrs_ok_from(items, i + 1),
            None => false,
        }
    }
}

fn attr_name_from(items: &Vec<Json>, i: usize) -> (r: Option<Vec<char>>)
    requires
        i <= items@.len(),
    ensures
        match r {
            Some(nm) => sp_attr_name(jvs(items@).subrange(i as int, items@.len() as int)) == Some(
                nm@,
            ),
            None => sp_attr_name(jvs(items@).subrange(i as int, items@.len() as int)) is None,
        },
    decreases items@.len() - i,
{
    proof {
        lemma_jvs_index(items@);
    }
    let ghost sub = jvs(items@).subrange(i as int, items@.len() as int);
    if i == items.len() {
        proof {
            assert(sub.len() == 0);
        }
        return None;
    }
    proof {
        assert(sub[0] == jv(items@[i as int]));
        assert(jvs(items@).subrange(i + 1, items@.len() as int) =~= sub.drop_first());
    }
    match attr_fields(&items[i]) {
        None => None,
        Some((n, v)) => {
            if chars_eq_str(n, "name") {
                if attrs_ok_from(items, i + 1) {
                    Some(copy_range(v, 0, v.len()))
                } else {
                    None
                }
            } else {
                attr_name_from(items, i + 1)
            }
        },
    }
}

fn parse_record(j: &Json) -> (r: Result<Device, Error>)
    ensures
        match r {
            Ok(d) => sp_record(jv(*j)) == Ok::<DeviceV, Error>(d@),
            Err(e) => sp_record(jv(*j)) == Err::<DeviceV, Error>(e),
        },
{
    match j {
        Json::Obj(ms) => match json_obj_lookup(ms, "deviceUuid") {
            Some(u) => match u {
                Json::Str(uc) => {
                    let us = chars_to_string(uc);
                    match Mac::parse(us.as_str()) {
                        Ok(mac) => match json_obj_lookup(ms, "attributeList") {
                            Some(al) => match al {
                                Json::Arr(items) => {
                                    proof {
                                        lemma_jvs_index(items@);
                                        assert(jvs(items@).subrange(
                                            0,
                                            items@.len() as int,
                                        ) =~= jvs(items@));
                                    }
                                    match attr_name_from(items, 0) {
                                        Some(nm) => Ok(
                                            Device { name: chars_to_string(&nm), uuid: mac },
                                        ),
                                        None => Err(Error::Serialization),
                                    }
                                },
                                _ => Err(Error::Serialization),
                            },
                            None => Err(Error::Serialization),
                        },
                        Err(_) => Err(Error::InvalidIdentifier),
                    }
                },
                _ => Err(Error::Serialization),
            },
            None => Err(Error::Serialization),
        },
        _ => Err(Error::Serialization),
    }
}

fn parse_records_from(items: &Vec<Json>, i: usize) -> (r: Result<Vec<Device>, Error>)
    requires
        i <= items@.len(),
    ensures
        match r {
            Ok(ds) => sp_records(jvs(items@).subrange(i as int, items@.len() as int)) == Ok::<
                Seq<DeviceV>,
                Error,
            >(dvs(ds@)),
            Err(e) => sp_records(jvs(items@).subrange(i as int, items@.len() as int)) == Err::<
                Seq<DeviceV>,
                Error,
            >(e),
        },
    decreases items@.len() - i,
{
    proof {
        lemma_jvs_index(items@);
    }
    let ghost sub = jvs(items@).subrange(i as int, items@.len() as int);
    if i == items.len() {
        let ds: Vec<Device> = Vec::new();
        proof {
            assert(sub.len() == 0);
            assert(dvs(ds@) =~= Seq::<DeviceV>::empty());
        }
        return Ok(ds);
    }
    proof {
        assert(sub[0] == jv(items@[i as int]));
        assert(jvs(items@).subrange(i + 1, items@.len() as int) =~= sub.drop_first());
    }
    match parse_record(&items[i]) {
        Err(e) => Err(e),
        Ok(d) => match parse_records_from(items, i + 1) {
            Err(e) => Err(e),
            Ok(mut ds) => {
                let ghost dview = d@;
                let ghost rest = ds@;
                ds.insert(0, d);
                proof {
                    assert(ds@[0]@ == dview);
                    assert(ds@.subrange(1, ds@.len() as int) =~= rest);
                    assert(dvs(ds@) =~= seq![dview] + dvs(rest));
                }
                Ok(ds)
            },
        },
    }
}

/// Parses the device-list response into device handles, in response
/// order.  A body that is not JSON is transport trouble; a response of
/// the wrong shape, a record with a malformed identifier, or a record
/// without a `"name"` attribute fails the whole list.
pub fn parse_device_list(body: &str) -> (r: Result<Vec<Device>, Error>)
    ensures
        match r {
            Ok(ds) => sp_directory(body@) == Ok::<Seq<DeviceV>, Error>(dvs(ds@)),
            Err(e) => sp_directory(body@) == Err::<Seq<DeviceV>, Error>(e),
        },
{
    match parse_json(body) {
        None => Err(Error::Transport),
        Some(doc) => match doc {
            Json::Obj(members) => match json_obj_lookup(&members, "deviceList") {
                Some(dl) => match dl {
                    Json::Arr(items) => {
                        proof {
                            lemma_jvs_index(items@);
                            assert(jvs(items@).subrange(0, items@.len() as int) =~= jvs(items@));
                        }
                        parse_records_from(items, 0)
                    },
                    _ => Err(Error::Serialization),
                },
                None => Err(Error::Serialization),
            },
            _ => Err(Error::Serialization),
        },
    }
}

/// One malformed record fails the whole list: no partial results.
pub proof fn lemma_record_failure_fails_list(items: Seq<JsonV>, k: int)
    requires
        0 <= k < items.len(),
        sp_record(items[k]) is Err,
    ensures
        sp_records(items) is Err,
    decreases items.len(),
{
    if k > 0 && !(sp_record(items[0]) is Err) {
        lemma_record_failure_fails_list(items.drop_first(), k - 1);
    }
}

/// An attribute list whose well-formed entries are all named otherwise
/// than `"name"` yields no display name.
pub proof fn lemma_attr_name_missing(items: Seq<JsonV>)
    requires
        forall|k: int|
            0 <= k < items.len() ==> (sp_attr(items[k]) is Some ==> (sp_attr(
                items[k],
            )->Some_0).0 != "name"@),
    ensures
        sp_attr_name(items) is None,
    decreases items.len(),
{
    if items.len() > 0 {
        if sp_attr(items[0]) is Some {
            assert(forall|k: int|
                0 <= k < items.drop_first().len() ==> items.drop_first()[k] == items[k + 1]);
            lemma_attr_name_missing(items.drop_first());
        }
    }
}

} // verus!
