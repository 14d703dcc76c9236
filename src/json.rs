use vstd::prelude::*;

verus! {

/// A JSON document as a mathematical value.
pub enum Json {
    Null,
    Bool(bool),
    Number(int),
    Str(Seq<char>),
    Array(Seq<Json>),
    Object(Seq<(Seq<char>, Json)>),
}

/// A JSON document as it is handed to and from the wire layer.
pub enum JsonValue {
    Null,
    Bool(bool),
    UInt(u64),
    Int(i64),
    Str(String),
    Array(Vec<JsonValue>),
    Object(Vec<(String, JsonValue)>),
}

/// The value bound to `key` in an object's members: the first member with that key.
pub open spec fn field(members: Seq<(Seq<char>, Json)>, key: Seq<char>) -> Option<Json>
    decreases members.len(),
{
    if members.len() == 0 {
        None
    } else if members[0].0 == key {
        Some(members[0].1)
    } else {
        field(members.drop_first(), key)
    }
}

/// The first member with a key is the one that `field` finds.
pub proof fn lemma_field_first(members: Seq<(Seq<char>, Json)>, key: Seq<char>, i: int)
    requires
        0 <= i < members.len(),
        members[i].0 == key,
        forall|j: int| 0 <= j < i ==> members[j].0 != key,
    ensures
        field(members, key) == Some(members[i].1),
    decreases i,
{
    if i > 0 {
        let rest = members.drop_first();
        assert forall|j: int| 0 <= j < i - 1 implies rest[j].0 != key by {
            assert(rest[j] == members[j + 1]);
        }
        lemma_field_first(rest, key, i - 1);
    }
}

/// A key that no member has is not found.
pub proof fn lemma_field_absent(members: Seq<(Seq<char>, Json)>, key: Seq<char>)
    requires
        forall|j: int| 0 <= j < members.len() ==> members[j].0 != key,
    ensures
        field(members, key) is None,
    decreases members.len(),
{
    if members.len() > 0 {
        let rest = members.drop_first();
        assert forall|j: int| 0 <= j < rest.len() implies rest[j].0 != key by {
            assert(rest[j] == members[j + 1]);
        }
        lemma_field_absent(rest, key);
    }
}

impl Json {
    pub open spec fn get(self, key: Seq<char>) -> Option<Json> {
        match self {
            Json::Object(members) => field(members, key),
            _ => None,
        }
    }

    pub open spec fn as_str(self) -> Option<Seq<char>> {
        match self {
            Json::Str(s) => Some(s),
            _ => None,
        }
    }

    pub open spec fn as_bool(self) -> Option<bool> {
        match self {
            Json::Bool(b) => Some(b),
            _ => None,
        }
    }

    pub open spec fn as_number(self) -> Option<int> {
        match self {
            Json::Number(n) => Some(n),
            _ => None,
        }
    }

    /// The string stored under `key`, if the object has one.
    pub open spec fn str_at(self, key: Seq<char>) -> Option<Seq<char>> {
        match self.get(key) {
            Some(v) => v.as_str(),
            None => None,
        }
    }

    pub open spec fn bool_at(self, key: Seq<char>) -> Option<bool> {
        match self.get(key) {
            Some(v) => v.as_bool(),
            None => None,
        }
    }

    pub open spec fn number_at(self, key: Seq<char>) -> Option<int> {
        match self.get(key) {
            Some(v) => v.as_number(),
            None => None,
        }
    }
}

impl JsonValue {
    pub open spec fn model(&self) -> Json
        decreases self,
    {
        match self {
            JsonValue::Null => Json::Null,
            JsonValue::Bool(b) => Json::Bool(*b),
            JsonValue::UInt(n) => Json::Number(*n as int),
            JsonValue::Int(n) => Json::Number(*n as int),
            JsonValue::Str(s) => Json::Str(s@),
            JsonValue::Array(a) => Json::Array(
                Seq::new(a.len() as nat, |i: int| if 0 <= i < a.len() { a[i].model() } else { Json::Null }),
            ),
            JsonValue::Object(o) => Json::Object(
                Seq::new(
                    o.len() as nat,
                    |i: int|
                        if 0 <= i < o.len() {
                            (o[i].0@, o[i].1.model())
                        } else {
                            (Seq::empty(), Json::Null)
                        },
                ),
            ),
        }
    }

    /// The member of an object stored under `key`.
    pub fn get(&self, key: &String) -> (r: Option<&JsonValue>)
        ensures
            match r {
                Some(x) => self.model().get(key@) == Some(x.model()),
                None => self.model().get(key@) is None,
            },
    {
        match self {
            JsonValue::Object(members) => {
                let ghost m = self.model()->Object_0;
                let mut i: usize = 0;
                assert(m.subrange(0, m.len() as int) =~= m);
                while i < members.len()
                    invariant
                        0 <= i <= members.len(),
                        m.len() == members.len(),
                        self.model().get(key@) == field(m, key@),
                        forall|j: int| 0 <= j < members.len() ==> #[trigger] m[j] == (members[j].0@, members[j].1.model()),
                        field(m, key@) == field(m.subrange(i as int, m.len() as int), key@),
                    decreases members.len() - i,
                {
                    let ghost rest = m.subrange(i as int, m.len() as int);
                    assert(rest.drop_first() =~= m.subrange(i + 1, m.len() as int));
                    assert(rest[0] == m[i as int]);
                    if members[i].0 == *key {
                        assert(rest.len() > 0 && rest[0].0 == key@);
                        assert(field(rest, key@) == Some(rest[0].1));
                        return Some(&members[i].1);
                    }
                    i = i + 1;
                }
                None
            },
            _ => None,
        }
    }

    pub fn as_str(&self) -> (r: Option<&String>)
        ensures
            match r {
                Some(s) => self.model().as_str() == Some(s@),
                None => self.model().as_str() is None,
            },
    {
        match self {
            JsonValue::Str(s) => Some(s),
            _ => None,
        }
    }

    pub fn as_bool(&self) -> (r: Option<bool>)
        ensures
            r == self.model().as_bool(),
    {
        match self {
            JsonValue::Bool(b) => Some(*b),
            _ => None,
        }
    }

    /// A number that fits in `lo ..= hi`.
    pub fn as_i128_in(&self, lo: i128, hi: i128) -> (r: Option<i128>)
        ensures
            match r {
                Some(n) => self.model().as_number() == Some(n as int) && lo <= n <= hi,
                None => !(self.model().as_number() matches Some(n) && lo <= n <= hi),
            },
    {
        match self {
            JsonValue::UInt(n) => {
                let n = *n as i128;
                if lo <= n && n <= hi {
                    Some(n)
                } else {
                    None
                }
            },
            JsonValue::Int(n) => {
                let n = *n as i128;
                if lo <= n && n <= hi {
                    Some(n)
                } else {
                    None
                }
            },
            _ => None,
        }
    }

    pub fn as_array(&self) -> (r: Option<&Vec<JsonValue>>)
        ensures
            match r {
                Some(a) => self.model() matches Json::Array(s) && s.len() == a.len() && forall|i: int|
                    0 <= i < a.len() ==> #[trigger] s[i] == a[i].model(),
                None => !(self.model() is Array),
            },
    {
        match self {
            JsonValue::Array(a) => Some(a),
            _ => None,
        }
    }
}

} // verus!
