use vstd::prelude::*;

verus! {

/// What one key does on a layer: the payloads sent when it is pressed and
/// when it is held, and its pair of colors.
pub struct KeyConfig {
    pub on_press: Option<[u8; 8]>,
    pub on_hold: Option<[u8; 8]>,
    pub colors: [u8; 6],
}

/// A named layer of key bindings.
pub struct LayerConfig {
    pub name: heapless::String<16>,
    pub keys: [KeyConfig; 14],
}

/// Up to six layers of key bindings, read by the policy.
#[derive(Default)]
pub struct Config {
    layers: [Option<LayerConfig>; 6],
}

impl View for Config {
    type V = Seq<Option<LayerConfig>>;

    closed spec fn view(&self) -> Seq<Option<LayerConfig>> {
        self.layers@
    }
}

impl Config {
    /// Layer `i`, if it is configured.
    pub fn layer(&self, i: usize) -> (l: Option<&LayerConfig>)
        requires
            i < 6,
        ensures
            l == match self@[i as int] {
                Some(ref c) => Some(c),
                None => None::<&LayerConfig>,
            },
    {
        match &self.layers[i] {
            Some(c) => Some(c),
            None => None,
        }
    }
}

} // verus!
