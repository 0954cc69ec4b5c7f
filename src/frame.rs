use vstd::prelude::*;
use crate::text::same_text;

verus! {

/// One named field of a decoded protocol layer.
#[derive(Clone, Debug)]
pub struct Field {
    pub name: String,
    pub value: String,
}

/// One protocol layer of a decoded frame, with its fields in decoding order.
#[derive(Clone, Debug)]
pub struct Layer {
    pub name: String,
    pub fields: Vec<Field>,
}

/// A decoded frame: its protocol layers, outermost first.
#[derive(Clone, Debug)]
pub struct Frame {
    pub layers: Vec<Layer>,
}

/// The value of the first field named `key`, if any.
pub open spec fn field_value(fields: Seq<Field>, key: Seq<char>) -> Option<Seq<char>>
    decreases fields.len(),
{
    if fields.len() == 0 {
        None
    } else if fields[0].name@ == key {
        Some(fields[0].value@)
    } else {
        field_value(fields.drop_first(), key)
    }
}

/// The address that the last layer named `layer` with a field `key` carries;
/// empty where no layer does.
pub open spec fn last_layer_value(layers: Seq<Layer>, layer: Seq<char>, key: Seq<char>) -> Seq<char>
    decreases layers.len(),
{
    if layers.len() == 0 {
        Seq::empty()
    } else {
        let l = layers.last();
        if l.name@ == layer && field_value(l.fields@, key) is Some {
            field_value(l.fields@, key)->0
        } else {
            last_layer_value(layers.drop_last(), layer, key)
        }
    }
}

/// The network-layer address of a frame; empty where it has none.
pub open spec fn frame_ip(f: Frame) -> Seq<char> {
    last_layer_value(f.layers@, "ip"@, "ip.addr"@)
}

/// The link-layer source address of a frame; empty where it has none.
pub open spec fn frame_mac(f: Frame) -> Seq<char> {
    last_layer_value(f.layers@, "eth"@, "eth.src"@)
}

/// The (IP, MAC) pair that a frame offers, where it carries both.
pub open spec fn frame_pair(f: Frame) -> Option<(Seq<char>, Seq<char>)> {
    if frame_ip(f).len() == 0 || frame_mac(f).len() == 0 {
        None
    } else {
        Some((frame_ip(f), frame_mac(f)))
    }
}

impl Layer {
    /// The value of the first field named `key`, if any.
    pub fn field(&self, key: &str) -> (r: Option<&String>)
        ensures
            r matches Some(v) ==> field_value(self.fields@, key@) == Some(v@),
            r is None ==> field_value(self.fields@, key@) is None,
    {
        let mut i: usize = 0;
        assert(self.fields@.skip(0) =~= self.fields@);
        while i < self.fields.len()
            invariant
                i <= self.fields@.len(),
                field_value(self.fields@, key@) == field_value(self.fields@.skip(i as int), key@),
            decreases self.fields@.len() - i,
        {
            let f = &self.fields[i];
            assert(self.fields@.skip(i as int)[0] == self.fields@[i as int]);
            assert(self.fields@.skip(i as int).drop_first() =~= self.fields@.skip(i + 1));
            if same_text(f.name.as_str(), key) {
                return Some(&f.value);
            }
            i = i + 1;
        }
        None
    }
}

/// The value of `key` in the last layer named `layer` that has it; empty where none has.
fn last_value(layers: &Vec<Layer>, layer: &str, key: &str) -> (r: String)
    ensures
        r@ == last_layer_value(layers@, layer@, key@),
{
    let mut r = String::new();
    let mut i: usize = 0;
    while i < layers.len()
        invariant
            i <= layers@.len(),
            r@ == last_layer_value(layers@.take(i as int), layer@, key@),
        decreases layers@.len() - i,
    {
        let l = &layers[i];
        assert(layers@.take(i + 1).drop_last() =~= layers@.take(i as int));
        assert(layers@.take(i + 1).last() == layers@[i as int]);
        if same_text(l.name.as_str(), layer) {
            match l.field(key) {
                Some(v) => {
                    r = v.clone();
                },
                None => {},
            }
        }
        i = i + 1;
    }
    assert(layers@.take(layers@.len() as int) =~= layers@);
    r
}

impl Frame {
    /// The (IP, MAC) pair of this frame, where it carries both addresses.
    pub fn address_pair(&self) -> (r: Option<(String, String)>)
        ensures
            r matches Some(p) ==> frame_pair(*self) == Some((p.0@, p.1@)),
            r is None ==> frame_pair(*self) is None,
    {
        let ip = last_value(&self.layers, "ip", "ip.addr");
        let mac = last_value(&self.layers, "eth", "eth.src");
        if ip.as_str().unicode_len() == 0 || mac.as_str().unicode_len() == 0 {
            None
        } else {
            Some((ip, mac))
        }
    }
}

} // verus!
