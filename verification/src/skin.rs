//! Cosmetic skins: a face, hat, robe and beard option, an outfit color, and
//! an optional custom override. A skin is resolved once at spawn (from
//! persistence or randomized) and cached for the round.
use vstd::prelude::*;
use crate::rng::rng_below;

verus! {

/// An RGB outfit color; the palette to draw from comes with the assets.
#[derive(Clone, Copy, Debug, PartialEq, Eq, Structural)]
pub struct OutfitColor {
    pub r: u8,
    pub g: u8,
    pub b: u8,
}

#[derive(Clone, Debug, PartialEq)]
pub struct Skin {
    pub face: String,
    pub hat: String,
    pub robe: String,
    pub beard: String,
    pub custom: Option<String>,
    pub outfit_color: OutfitColor,
}

/// The cosmetic options the assets offer; skins are always drawn from these.
#[derive(Clone, Debug)]
pub struct SkinOptions {
    pub face: Vec<String>,
    pub hat: Vec<String>,
    pub robe: Vec<String>,
    pub beard: Vec<String>,
    pub custom: Vec<String>,
    /// Participants given a fixed custom skin by the assets: `(name, custom)`.
    pub custom_map: Vec<(String, String)>,
    pub palette: Vec<OutfitColor>,
}

/// `list` holds a string whose characters are `s`.
pub open spec fn list_has_str(list: Seq<String>, s: Seq<char>) -> bool {
    exists|i: int| 0 <= i < list.len() && list[i]@ == s
}

/// Two skins describe the same cosmetics.
pub open spec fn skin_eq(a: Skin, b: Skin) -> bool {
    &&& a.face@ == b.face@
    &&& a.hat@ == b.hat@
    &&& a.robe@ == b.robe@
    &&& a.beard@ == b.beard@
    &&& a.outfit_color == b.outfit_color
    &&& match (a.custom, b.custom) {
        (Option::None, Option::None) => true,
        (Option::Some(x), Option::Some(y)) => x@ == y@,
        _ => false,
    }
}

impl SkinOptions {
    /// Every option list a random skin draws from is non-empty.
    pub open spec fn wf(self) -> bool {
        &&& self.face@.len() > 0
        &&& self.hat@.len() > 0
        &&& self.robe@.len() > 0
        &&& self.beard@.len() > 0
        &&& self.palette@.len() > 0
    }

    /// Look a name up in the fixed custom-skin map.
    pub fn custom_for(&self, name: &str) -> (r: Option<String>)
        ensures
            match r {
                Option::Some(c) => exists|i: int|
                    0 <= i < self.custom_map@.len() && self.custom_map@[i].0@ == name@
                        && self.custom_map@[i].1@ == c@,
                Option::None => forall|i: int|
                    0 <= i < self.custom_map@.len() ==> self.custom_map@[i].0@ != name@,
            },
    {
        let n = self.custom_map.len();
        let mut i: usize = 0;
        while i < n
            invariant
                n == self.custom_map@.len(),
                0 <= i <= n,
                forall|j: int| 0 <= j < i ==> self.custom_map@[j].0@ != name@,
            decreases n - i,
        {
            if crate::text::str_eq(self.custom_map[i].0.as_str(), name) {
                return Option::Some(self.custom_map[i].1.clone());
            }
            i += 1;
        }
        Option::None
    }

    /// Does a list of options contain `s`?
    pub fn list_contains(list: &Vec<String>, s: &str) -> (r: bool)
        ensures
            r == list_has_str(list@, s@),
    {
        let n = list.len();
        let mut i: usize = 0;
        while i < n
            invariant
                n == list@.len(),
                0 <= i <= n,
                forall|j: int| 0 <= j < i ==> list@[j]@ != s@,
            decreases n - i,
        {
            if crate::text::str_eq(list[i].as_str(), s) {
                return true;
            }
            i += 1;
        }
        false
    }
}

impl Skin {
    /// A skin whose every component is drawn from the given options; the
    /// custom override starts empty.
    pub fn random(rng: &mut rand::rngs::StdRng, options: &SkinOptions) -> (r: Skin)
        requires
            options.wf(),
        ensures
            list_has_str(options.face@, r.face@),
            list_has_str(options.hat@, r.hat@),
            list_has_str(options.robe@, r.robe@),
            list_has_str(options.beard@, r.beard@),
            options.palette@.contains(r.outfit_color),
            r.custom is None,
    {
        let fi = rng_below(rng, options.face.len() as u64) as usize;
        let hi = rng_below(rng, options.hat.len() as u64) as usize;
        let ri = rng_below(rng, options.robe.len() as u64) as usize;
        let bi = rng_below(rng, options.beard.len() as u64) as usize;
        let ci = rng_below(rng, options.palette.len() as u64) as usize;
        Skin {
            face: options.face[fi].clone(),
            hat: options.hat[hi].clone(),
            robe: options.robe[ri].clone(),
            beard: options.beard[bi].clone(),
            custom: Option::None,
            outfit_color: options.palette[ci],
        }
    }
}

} // verus!
