//! # The information object
//!
//! What the server reports with the result of connect and with onStatus: the
//! object encoding, the level, the status code, details and a description.
//! None of them is sent necessarily, so each is optional. It converts to and
//! from the pairs of an AMF0 object.
use vstd::prelude::*;
use crate::amf_number::{number_to_u64, u64_to_number, u64_to_number_spec, lemma_number_roundtrip};
use crate::messages::{
    AmfData, AmfValue, InfoLevel, ObjectEncoding, Status, pairs_value, opt_chars, number_of,
    string_of, string_pair, number_pair, object_encoding_of_number, push_string, push_number,
    lemma_pairs_value_remove_first, lemma_info_level_name, lemma_status_name,
};
use crate::text::str_equals;

verus! {

/// # The information object as the contracts see it
pub struct InfoObjectView {
    pub object_encoding: Option<ObjectEncoding>,
    pub level: Option<InfoLevel>,
    pub code: Option<Status>,
    pub details: Option<Seq<char>>,
    pub description: Option<Seq<char>>,
}

impl InfoObjectView {
    /// The information object with no field set.
    pub open spec fn empty() -> Self {
        InfoObjectView {
            object_encoding: None,
            level: None,
            code: None,
            details: None,
            description: None,
        }
    }

    /// The information object after the pair `(k, v)` of an AMF0 object was read into it.
    pub open spec fn apply(self, k: Seq<char>, v: AmfValue) -> Self {
        if k == "objectEncoding"@ {
            InfoObjectView {
                object_encoding: match number_of(v) {
                    Some(n) => object_encoding_of_number(n),
                    None => None,
                },
                ..self
            }
        } else if k == "level"@ {
            InfoObjectView {
                level: match string_of(v) {
                    Some(s) => InfoLevel::parse_spec(s),
                    None => None,
                },
                ..self
            }
        } else if k == "code"@ {
            InfoObjectView {
                code: match string_of(v) {
                    Some(s) => Status::parse_spec(s),
                    None => None,
                },
                ..self
            }
        } else if k == "details"@ {
            InfoObjectView { details: string_of(v), ..self }
        } else if k == "description"@ {
            InfoObjectView { description: string_of(v), ..self }
        } else {
            self
        }
    }

    /// The information object that the pairs of an AMF0 object are read into, in order.
    pub open spec fn from_pairs(s: Seq<(Seq<char>, AmfValue)>) -> Self
        decreases s.len(),
    {
        if s.len() == 0 {
            InfoObjectView::empty()
        } else {
            InfoObjectView::from_pairs(s.drop_last()).apply(s.last().0, s.last().1)
        }
    }

    /// The pairs of the AMF0 object that this information object becomes: each
    /// field that is set, in the order objectEncoding (the number of its id),
    /// level, code, details, description.
    pub open spec fn to_pairs(self) -> Seq<(Seq<char>, AmfValue)> {
        number_pair(
            "objectEncoding"@,
            match self.object_encoding {
                Some(e) => Some(u64_to_number_spec(e.id_spec() as u64)),
                None => None,
            },
        ) + string_pair(
            "level"@,
            match self.level {
                Some(l) => Some(l.name_spec()),
                None => None,
            },
        ) + string_pair(
            "code"@,
            match self.code {
                Some(c) => Some(c.name_spec()),
                None => None,
            },
        ) + string_pair("details"@, self.details) + string_pair("description"@, self.description)
    }
}

/// # The information object
#[derive(Debug)]
pub struct InfoObject {
    object_encoding: Option<ObjectEncoding>,
    level: Option<InfoLevel>,
    code: Option<Status>,
    details: Option<String>,
    description: Option<String>,
}

impl View for InfoObject {
    type V = InfoObjectView;

    closed spec fn view(&self) -> InfoObjectView {
        InfoObjectView {
            object_encoding: self.object_encoding,
            level: self.level,
            code: self.code,
            details: opt_chars(self.details),
            description: opt_chars(self.description),
        }
    }
}

impl Clone for InfoObject {
    fn clone(&self) -> (r: Self)
        ensures
            r@ == self@,
    {
        InfoObject {
            object_encoding: self.object_encoding,
            level: self.level,
            code: self.code,
            details: crate::messages::clone_opt_string(&self.details),
            description: crate::messages::clone_opt_string(&self.description),
        }
    }
}

impl Default for InfoObject {
    fn default() -> (r: Self)
        ensures
            r@ == InfoObjectView::empty(),
    {
        InfoObject::new()
    }
}

impl InfoObject {
    /// Constructs a new `InfoObject` with no field set.
    pub fn new() -> (r: Self)
        ensures
            r@ == InfoObjectView::empty(),
    {
        InfoObject { object_encoding: None, level: None, code: None, details: None, description: None }
    }

    /// Sets the object encoding from an AMF0 number (its bits). A number that
    /// names no encoding leaves the field unset.
    pub fn set_object_encoding(&mut self, object_encoding: Option<u64>)
        ensures
            final(self)@ == (InfoObjectView {
                object_encoding: match object_encoding {
                    Some(n) => object_encoding_of_number(n),
                    None => None,
                },
                ..old(self)@
            }),
    {
        self.object_encoding = match object_encoding {
            Some(n) => ObjectEncoding::from_id(number_to_u64(n) as u8),
            None => None,
        };
    }

    /// Sets the level from its name: "status", "warning" or "error". Another
    /// name leaves the field unset.
    pub fn set_level(&mut self, level: Option<String>)
        ensures
            final(self)@ == (InfoObjectView {
                level: match level {
                    Some(s) => InfoLevel::parse_spec(s@),
                    None => None,
                },
                ..old(self)@
            }),
    {
        self.level = match level {
            Some(s) => InfoLevel::parse(&s),
            None => None,
        };
    }

    /// Sets the status code from its name, such as "NetConnection.Connect.Success"
    /// or "NetStream.Publish.Start". A name that is no status leaves the field unset.
    pub fn set_code(&mut self, code: Option<String>)
        ensures
            final(self)@ == (InfoObjectView {
                code: match code {
                    Some(s) => Status::parse_spec(s@),
                    None => None,
                },
                ..old(self)@
            }),
    {
        self.code = match code {
            Some(s) => Status::parse(&s),
            None => None,
        };
    }

    /// Sets the details.
    pub fn set_details(&mut self, details: Option<String>)
        ensures
            final(self)@ == (InfoObjectView { details: opt_chars(details), ..old(self)@ }),
    {
        self.details = details;
    }

    /// Sets the description.
    pub fn set_description(&mut self, description: Option<String>)
        ensures
            final(self)@ == (InfoObjectView { description: opt_chars(description), ..old(self)@ }),
    {
        self.description = description;
    }

    /// Reads the pair `(key, value)` of an AMF0 object into this information
    /// object: a known name sets its field from the value, an unknown name is ignored.
    pub fn read_pair(&mut self, key: &String, value: AmfData)
        ensures
            final(self)@ == old(self)@.apply(key@, value.value()),
    {
        if str_equals(key, "objectEncoding") {
            self.set_object_encoding(value.number());
        } else if str_equals(key, "level") {
            self.set_level(value.string());
        } else if str_equals(key, "code") {
            self.set_code(value.string());
        } else if str_equals(key, "details") {
            self.set_details(value.string());
        } else if str_equals(key, "description") {
            self.set_description(value.string());
        }
    }

    /// Converts the pairs of an AMF0 object into an information object,
    /// reading the pairs in order.
    pub fn from_amf_object(o: Vec<(String, AmfData)>) -> (r: InfoObject)
        ensures
            r@ == InfoObjectView::from_pairs(pairs_value(o@)),
    {
        let ghost all = pairs_value(o@);
        let ghost n = o@.len();
        let mut rest = o;
        let mut r = InfoObject::new();
        while rest.len() > 0
            invariant
                rest@.len() <= n,
                all.len() == n,
                pairs_value(rest@) == all.subrange(n - rest@.len(), n as int),
                r@ == InfoObjectView::from_pairs(all.subrange(0, n - rest@.len())),
            decreases rest@.len(),
        {
            let ghost before = rest@;
            let ghost k = n - rest@.len();
            proof {
                lemma_pairs_value_remove_first(before);
            }
            let (key, value) = rest.remove(0);
            r.read_pair(&key, value);
            proof {
                assert(rest@ =~= before.subrange(1, before.len() as int));
                assert(all.subrange(0, k + 1).drop_last() =~= all.subrange(0, k));
                assert(all[k] == pairs_value(before)[0]);
                assert(pairs_value(rest@) =~= all.subrange(n - rest@.len(), n as int));
            }
        }
        assert(all.subrange(0, n as int) =~= all);
        r
    }

    /// Converts this information object into the pairs of an AMF0 object: each
    /// field that is set, in the order of `InfoObjectView::to_pairs`.
    pub fn into_amf_object(self) -> (r: Vec<(String, AmfData)>)
        ensures
            pairs_value(r@) == self@.to_pairs(),
    {
        let ghost v = self@;
        let InfoObject { object_encoding, level, code, details, description } = self;
        let mut m: Vec<(String, AmfData)> = Vec::new();
        let encoding = match object_encoding {
            Some(e) => Some(u64_to_number(e.id() as u64)),
            None => None,
        };
        push_number(&mut m, "objectEncoding", encoding);
        let level_name = match level {
            Some(l) => Some(l.to_string()),
            None => None,
        };
        push_string(&mut m, "level", level_name);
        let code_name = match code {
            Some(c) => Some(c.to_string()),
            None => None,
        };
        push_string(&mut m, "code", code_name);
        push_string(&mut m, "details", details);
        push_string(&mut m, "description", description);
        assert(Seq::<(Seq<char>, AmfValue)>::empty() + number_pair(
            "objectEncoding"@,
            match v.object_encoding {
                Some(e) => Some(u64_to_number_spec(e.id_spec() as u64)),
                None => None,
            },
        ) =~= number_pair(
            "objectEncoding"@,
            match v.object_encoding {
                Some(e) => Some(u64_to_number_spec(e.id_spec() as u64)),
                None => None,
            },
        ));
        m
    }
}

/// Reading one more pair, or none, into an information object.
proof fn lemma_info_from_pairs_append(s: Seq<(Seq<char>, AmfValue)>, t: Seq<(Seq<char>, AmfValue)>)
    requires
        t.len() <= 1,
    ensures
        InfoObjectView::from_pairs(s + t) == if t.len() == 0 {
            InfoObjectView::from_pairs(s)
        } else {
            InfoObjectView::from_pairs(s).apply(t[0].0, t[0].1)
        },
{
    if t.len() == 0 {
        assert(s + t =~= s);
    } else {
        assert((s + t).drop_last() =~= s);
    }
}

/// Converting an information object into the pairs of an AMF0 object and back
/// gives the same information object.
pub proof fn lemma_info_object_roundtrip(v: InfoObjectView)
    ensures
        InfoObjectView::from_pairs(v.to_pairs()) == v,
{
    reveal_strlit("objectEncoding");
    reveal_strlit("level");
    reveal_strlit("code");
    reveal_strlit("details");
    reveal_strlit("description");
    assert("objectEncoding"@.len() == 14 && "level"@.len() == 5 && "code"@.len() == 4);
    assert("details"@.len() == 7 && "description"@.len() == 11);
    let e = Seq::<(Seq<char>, AmfValue)>::empty();
    let p1 = number_pair(
        "objectEncoding"@,
        match v.object_encoding {
            Some(e) => Some(u64_to_number_spec(e.id_spec() as u64)),
            None => None,
        },
    );
    let p2 = string_pair(
        "level"@,
        match v.level {
            Some(l) => Some(l.name_spec()),
            None => None,
        },
    );
    let p3 = string_pair(
        "code"@,
        match v.code {
            Some(c) => Some(c.name_spec()),
            None => None,
        },
    );
    let p4 = string_pair("details"@, v.details);
    let p5 = string_pair("description"@, v.description);
    if let Some(enc) = v.object_encoding {
        lemma_number_roundtrip(enc.id_spec() as u64);
    }
    if let Some(l) = v.level {
        lemma_info_level_name(l);
    }
    if let Some(c) = v.code {
        lemma_status_name(c);
    }
    assert(e + p1 =~= p1);
    lemma_info_from_pairs_append(e, p1);
    lemma_info_from_pairs_append(p1, p2);
    lemma_info_from_pairs_append(p1 + p2, p3);
    lemma_info_from_pairs_append(p1 + p2 + p3, p4);
    lemma_info_from_pairs_append(p1 + p2 + p3 + p4, p5);
}

} // verus!
