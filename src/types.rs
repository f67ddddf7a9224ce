use vstd::prelude::*;

verus! {

/// The type of a topic's values.
#[derive(Debug, Clone, Copy, PartialEq, Eq)]
pub enum Type {
    Boolean,
    Double,
    Int,
    Float,
    Str,
    Json,
    Raw,
    Rpc,
    Msgpack,
    Protobuf,
    BooleanArray,
    DoubleArray,
    IntArray,
    FloatArray,
    StringArray,
}

/// The numeric tag that a value frame carries for a type.
pub open spec fn type_tag(t: Type) -> u8 {
    match t {
        Type::Boolean => 0,
        Type::Double => 1,
        Type::Int => 2,
        Type::Float => 3,
        Type::Str => 4,
        Type::Json => 4,
        Type::Raw => 5,
        Type::Rpc => 5,
        Type::Msgpack => 5,
        Type::Protobuf => 5,
        Type::BooleanArray => 16,
        Type::DoubleArray => 17,
        Type::IntArray => 18,
        Type::FloatArray => 19,
        Type::StringArray => 20,
    }
}

/// The type that a numeric tag denotes; tags shared by several types read as the plainest one.
pub open spec fn type_of_tag(n: u64) -> Option<Type> {
    if n == 0 {
        Some(Type::Boolean)
    } else if n == 1 {
        Some(Type::Double)
    } else if n == 2 {
        Some(Type::Int)
    } else if n == 3 {
        Some(Type::Float)
    } else if n == 4 {
        Some(Type::Str)
    } else if n == 5 {
        Some(Type::Raw)
    } else if n == 16 {
        Some(Type::BooleanArray)
    } else if n == 17 {
        Some(Type::DoubleArray)
    } else if n == 18 {
        Some(Type::IntArray)
    } else if n == 19 {
        Some(Type::FloatArray)
    } else if n == 20 {
        Some(Type::StringArray)
    } else {
        None
    }
}

/// The name of a type in control messages.
pub open spec fn wire_name(t: Type) -> Seq<char> {
    match t {
        Type::Boolean => "boolean"@,
        Type::Double => "double"@,
        Type::Int => "int"@,
        Type::Float => "float"@,
        Type::Str => "string"@,
        Type::Json => "json"@,
        Type::Raw => "raw"@,
        Type::Rpc => "rpc"@,
        Type::Msgpack => "msgpack"@,
        Type::Protobuf => "protobuf"@,
        Type::BooleanArray => "boolean[]"@,
        Type::DoubleArray => "double[]"@,
        Type::IntArray => "int[]"@,
        Type::FloatArray => "float[]"@,
        Type::StringArray => "string[]"@,
    }
}

impl Type {
    /// The numeric tag of this type.
    pub fn as_u8(&self) -> (r: u8)
        ensures
            r == type_tag(*self),
    {
        match self {
            Type::Boolean => 0,
            Type::Double => 1,
            Type::Int => 2,
            Type::Float => 3,
            Type::Str => 4,
            Type::Json => 4,
            Type::Raw => 5,
            Type::Rpc => 5,
            Type::Msgpack => 5,
            Type::Protobuf => 5,
            Type::BooleanArray => 16,
            Type::DoubleArray => 17,
            Type::IntArray => 18,
            Type::FloatArray => 19,
            Type::StringArray => 20,
        }
    }

    /// The type that a numeric tag denotes, if any.
    pub fn from_num(n: u64) -> (r: Option<Type>)
        ensures
            r == type_of_tag(n),
    {
        if n == 0 {
            Some(Type::Boolean)
        } else if n == 1 {
            Some(Type::Double)
        } else if n == 2 {
            Some(Type::Int)
        } else if n == 3 {
            Some(Type::Float)
        } else if n == 4 {
            Some(Type::Str)
        } else if n == 5 {
            Some(Type::Raw)
        } else if n == 16 {
            Some(Type::BooleanArray)
        } else if n == 17 {
            Some(Type::DoubleArray)
        } else if n == 18 {
            Some(Type::IntArray)
        } else if n == 19 {
            Some(Type::FloatArray)
        } else if n == 20 {
            Some(Type::StringArray)
        } else {
            None
        }
    }

    /// The name of this type in control messages.
    pub fn name(&self) -> (r: &'static str)
        ensures
            r@ == wire_name(*self),
    {
        proof {
            reveal_strlit("boolean");
            reveal_strlit("double");
            reveal_strlit("int");
            reveal_strlit("float");
            reveal_strlit("string");
            reveal_strlit("json");
            reveal_strlit("raw");
            reveal_strlit("rpc");
            reveal_strlit("msgpack");
            reveal_strlit("protobuf");
            reveal_strlit("boolean[]");
            reveal_strlit("double[]");
            reveal_strlit("int[]");
            reveal_strlit("float[]");
            reveal_strlit("string[]");
        }
        match self {
            Type::Boolean => "boolean",
            Type::Double => "double",
            Type::Int => "int",
            Type::Float => "float",
            Type::Str => "string",
            Type::Json => "json",
            Type::Raw => "raw",
            Type::Rpc => "rpc",
            Type::Msgpack => "msgpack",
            Type::Protobuf => "protobuf",
            Type::BooleanArray => "boolean[]",
            Type::DoubleArray => "double[]",
            Type::IntArray => "int[]",
            Type::FloatArray => "float[]",
            Type::StringArray => "string[]",
        }
    }
}

/// Whether two strings hold the same characters.
fn same_text(a: &str, b: &str) -> (r: bool)
    ensures
        r == (a@ == b@),
{
    let n = a.unicode_len();
    if n != b.unicode_len() {
        return false;
    }
    let mut i: usize = 0;
    while i < n
        invariant
            n == a@.len(),
            n == b@.len(),
            i <= n,
            forall|k: int| 0 <= k < i ==> a@[k] == b@[k],
        decreases n - i,
    {
        if a.get_char(i) != b.get_char(i) {
            return false;
        }
        i = i + 1;
    }
    proof {
        assert(a@ =~= b@);
    }
    true
}

/// Every type, in tag order.
pub open spec fn all_types() -> Seq<Type> {
    seq![
        Type::Boolean, Type::Double, Type::Int, Type::Float, Type::Str, Type::Json, Type::Raw, Type::Rpc,
        Type::Msgpack, Type::Protobuf, Type::BooleanArray, Type::DoubleArray, Type::IntArray, Type::FloatArray,
        Type::StringArray,
    ]
}

impl Type {
    /// The type whose control-message name is `name`, if any.
    pub fn from_name(name: &str) -> (r: Option<Type>)
        ensures
            r matches Some(t) ==> wire_name(t) == name@,
            r is None ==> forall|t: Type| wire_name(t) != name@,
    {
        let types: [Type; 15] = [
            Type::Boolean, Type::Double, Type::Int, Type::Float, Type::Str, Type::Json, Type::Raw, Type::Rpc,
            Type::Msgpack, Type::Protobuf, Type::BooleanArray, Type::DoubleArray, Type::IntArray, Type::FloatArray,
            Type::StringArray,
        ];
        proof {
            assert(types@ =~= all_types());
        }
        let mut i: usize = 0;
        while i < 15
            invariant
                i <= 15,
                types@ == all_types(),
                forall|k: int| 0 <= k < i ==> wire_name(#[trigger] all_types()[k]) != name@,
            decreases 15 - i,
        {
            let t = types[i];
            if same_text(t.name(), name) {
                return Some(t);
            }
            i = i + 1;
        }
        proof {
            assert forall|t: Type| wire_name(t) != name@ by {
                let k: int = match t {
                    Type::Boolean => 0,
                    Type::Double => 1,
                    Type::Int => 2,
                    Type::Float => 3,
                    Type::Str => 4,
                    Type::Json => 5,
                    Type::Raw => 6,
                    Type::Rpc => 7,
                    Type::Msgpack => 8,
                    Type::Protobuf => 9,
                    Type::BooleanArray => 10,
                    Type::DoubleArray => 11,
                    Type::IntArray => 12,
                    Type::FloatArray => 13,
                    Type::StringArray => 14,
                };
                assert(all_types()[k] == t);
            }
        }
        None
    }
}

/// Reading back the tag of a type gives a type with the same tag.
pub proof fn lemma_tag_round_trip(t: Type)
    ensures
        type_of_tag(type_tag(t) as u64) is Some,
        type_tag(type_of_tag(type_tag(t) as u64).unwrap()) == type_tag(t),
{
}

} // verus!
