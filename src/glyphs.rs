use vstd::prelude::*;

verus! {

/// A logical symbol value, such as an ASCII byte.
pub type Glyph = u8;

/// Names a sprite provisioned on a remote controller.
pub type SpriteId = u8;

/// How glyph values map to bitmap slots.
pub enum Glyphs {
    /// One slot, shared by every glyph value.
    Single,
    /// Slot `g` for each glyph `g` below the bound.
    Sequential(u8),
    /// The slot of a glyph is its first position in the list.
    Alphabet(&'static [Glyph]),
}

/// `i` is the first position of `g` in `s`.
pub open spec fn is_first_index(s: Seq<Glyph>, g: Glyph, i: int) -> bool {
    &&& 0 <= i < s.len()
    &&& s[i] == g
    &&& forall|j: int| 0 <= j < i ==> s[j] != g
}

/// The first position of `g` in `s`, if it occurs there.
pub open spec fn first_index(s: Seq<Glyph>, g: Glyph) -> Option<int> {
    if s.contains(g) {
        Some(choose|i: int| is_first_index(s, g, i))
    } else {
        None
    }
}

/// There is at most one first position.
pub proof fn lemma_first_index_unique(s: Seq<Glyph>, g: Glyph, i: int, k: int)
    requires
        is_first_index(s, g, i),
        is_first_index(s, g, k),
    ensures
        i == k,
{
    if i < k {
        assert(s[i] != g);
    } else if k < i {
        assert(s[k] != g);
    }
}

/// A glyph that occurs in `s` has a first position there.
pub proof fn lemma_first_index_exists(s: Seq<Glyph>, g: Glyph)
    requires
        s.contains(g),
    ensures
        first_index(s, g) matches Some(i) && is_first_index(s, g, i),
    decreases s.len(),
{
    let k = choose|k: int| 0 <= k < s.len() && s[k] == g;
    if s[0] == g {
        assert(is_first_index(s, g, 0));
    } else {
        let t = s.drop_first();
        assert(t[k - 1] == g);
        lemma_first_index_exists(t, g);
        let i = first_index(t, g)->0;
        assert(is_first_index(s, g, i + 1)) by {
            assert forall|j: int| 0 <= j < i + 1 implies s[j] != g by {
                if j > 0 {
                    assert(s[j] == t[j - 1]);
                }
            }
        }
    }
}

impl Glyphs {
    /// The number of bitmap slots.
    pub open spec fn slot_count(&self) -> nat {
        match self {
            Glyphs::Single => 1,
            Glyphs::Sequential(n) => *n as nat,
            Glyphs::Alphabet(list) => list@.len(),
        }
    }

    /// `g` has a slot.
    pub open spec fn contains(&self, g: Glyph) -> bool {
        match self {
            Glyphs::Single => true,
            Glyphs::Sequential(n) => g < *n,
            Glyphs::Alphabet(list) => list@.contains(g),
        }
    }

    /// The slot of `g`, if it has one.
    pub open spec fn slot(&self, g: Glyph) -> Option<int> {
        match self {
            Glyphs::Single => Some(0),
            Glyphs::Sequential(n) => if g < *n {
                Some(g as int)
            } else {
                None
            },
            Glyphs::Alphabet(list) => first_index(list@, g),
        }
    }

    pub fn index(&self, glyph: Glyph) -> (r: Option<usize>)
        ensures
            r matches Some(i) ==> self.slot(glyph) == Some(i as int),
            r is None ==> self.slot(glyph) is None,
    {
        match self {
            Glyphs::Single => Some(0),
            Glyphs::Sequential(len) => {
                if glyph < *len {
                    Some(glyph as usize)
                } else {
                    None
                }
            },
            Glyphs::Alphabet(list) => {
                let glyphs: &[Glyph] = *list;
                assert(self.slot(glyph) == first_index(glyphs@, glyph));
                let mut i: usize = 0;
                while i < glyphs.len()
                    invariant
                        self.slot(glyph) == first_index(glyphs@, glyph),
                        i <= glyphs@.len(),
                        forall|j: int| 0 <= j < i ==> glyphs@[j] != glyph,
                    decreases glyphs@.len() - i,
                {
                    if glyphs[i] == glyph {
                        proof {
                            assert(glyphs@.contains(glyph));
                            lemma_first_index_exists(glyphs@, glyph);
                            lemma_first_index_unique(
                                glyphs@,
                                glyph,
                                i as int,
                                first_index(glyphs@, glyph)->0,
                            );
                        }
                        return Some(i);
                    }
                    i = i + 1;
                }
                None
            },
        }
    }

    pub fn len(&self) -> (r: usize)
        ensures
            r == self.slot_count(),
    {
        match self {
            Glyphs::Single => 1,
            Glyphs::Sequential(len) => *len as usize,
            Glyphs::Alphabet(glyphs) => glyphs.len(),
        }
    }
}

/// A glyph has a slot exactly when it belongs to the set, and every slot is
/// below the slot count.
pub proof fn lemma_slot_in_range(glyphs: Glyphs, g: Glyph)
    ensures
        glyphs.slot(g) is Some <==> glyphs.contains(g),
        glyphs.slot(g) matches Some(i) ==> 0 <= i < glyphs.slot_count(),
{
    if let Glyphs::Alphabet(list) = glyphs {
        if list@.contains(g) {
            lemma_first_index_exists(list@, g);
        }
    }
}

} // verus!
