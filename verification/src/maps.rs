//! Glyph tables: ordered character palettes from darkest to brightest.
use vstd::prelude::*;
use vstd::string::StrSliceExecFns;

verus! {

/// A named glyph palette, or a caller-supplied custom one.
pub enum CharMap {
    Chars1,
    Chars2,
    Chars3,
    Solid,
    Dotted,
    Gradient,
    BlackWhite,
    BwDotted,
    Braille,
    Custom(Vec<char>),
}

impl CharMap {
    /// The ordered character sequence of this palette.
    pub open spec fn spec_chars(self) -> Seq<char> {
        match self {
            CharMap::Chars1 => " .:-=+*#%@"@,
            CharMap::Chars2 => " .'`^\",:;Il!i~+_-?][}{1)(|/tfjrxnuvczXYUJCLQ0OZmwqpdbkhao*#MW&8%B@$"@,
            CharMap::Chars3 => " `.-':_,^=;><+!rc*/z?sLTv)J7(|Fi{C}fI31tlu[neoZ5Yxjya]2ESwqkP6h9d4VpOGbUAKXHm8RD#$Bg0MNWQ%&@"@,
            CharMap::Solid => "\u{2588}"@,
            CharMap::Dotted => "\u{28ff}"@,
            CharMap::Gradient => " \u{2591}\u{2592}\u{2593}\u{2588}"@,
            CharMap::BlackWhite => " \u{2588}"@,
            CharMap::BwDotted => " \u{28ff}"@,
            CharMap::Braille => " \u{b7}\u{b7}\u{28c0}\u{28c0}\u{28e4}\u{28e4}\u{28e4}\u{28c0}\u{2840}\u{2880}\u{2820}\u{2814}\u{2812}\u{2811}\u{280a}\u{2809}\u{2801}"@,
            CharMap::Custom(chars) => chars@,
        }
    }

    /// Turns the palette into its character lookup table.
    pub fn chars(self) -> (r: Vec<char>)
        ensures
            r@ == self.spec_chars(),
    {
        match self {
            CharMap::Chars1 => str_chars(" .:-=+*#%@"),
            CharMap::Chars2 => str_chars(" .'`^\",:;Il!i~+_-?][}{1)(|/tfjrxnuvczXYUJCLQ0OZmwqpdbkhao*#MW&8%B@$"),
            CharMap::Chars3 => str_chars(" `.-':_,^=;><+!rc*/z?sLTv)J7(|Fi{C}fI31tlu[neoZ5Yxjya]2ESwqkP6h9d4VpOGbUAKXHm8RD#$Bg0MNWQ%&@"),
            CharMap::Solid => str_chars("\u{2588}"),
            CharMap::Dotted => str_chars("\u{28ff}"),
            CharMap::Gradient => str_chars(" \u{2591}\u{2592}\u{2593}\u{2588}"),
            CharMap::BlackWhite => str_chars(" \u{2588}"),
            CharMap::BwDotted => str_chars(" \u{28ff}"),
            CharMap::Braille => str_chars(" \u{b7}\u{b7}\u{28c0}\u{28c0}\u{28e4}\u{28e4}\u{28e4}\u{28c0}\u{2840}\u{2880}\u{2820}\u{2814}\u{2812}\u{2811}\u{280a}\u{2809}\u{2801}"),
            CharMap::Custom(chars) => chars,
        }
    }

    /// Builds a custom palette from the characters of `chars`, in order.
    pub fn custom(chars: &str) -> (r: Self)
        ensures
            r matches CharMap::Custom(v) && v@ == chars@,
    {
        CharMap::Custom(str_chars(chars))
    }
}

/// Law: every named palette is non-empty (and small); only a custom palette
/// can violate the pipeline's construction precondition.
pub proof fn lemma_preset_chars_nonempty(m: CharMap)
    requires
        !(m matches CharMap::Custom(_)),
    ensures
        1 <= m.spec_chars().len() <= 92,
{
    reveal_strlit(" .:-=+*#%@");
    reveal_strlit(" .'`^\",:;Il!i~+_-?][}{1)(|/tfjrxnuvczXYUJCLQ0OZmwqpdbkhao*#MW&8%B@$");
    reveal_strlit(" `.-':_,^=;><+!rc*/z?sLTv)J7(|Fi{C}fI31tlu[neoZ5Yxjya]2ESwqkP6h9d4VpOGbUAKXHm8RD#$Bg0MNWQ%&@");
    reveal_strlit("\u{2588}");
    reveal_strlit("\u{28ff}");
    reveal_strlit(" \u{2591}\u{2592}\u{2593}\u{2588}");
    reveal_strlit(" \u{2588}");
    reveal_strlit(" \u{28ff}");
    reveal_strlit(" \u{b7}\u{b7}\u{28c0}\u{28c0}\u{28e4}\u{28e4}\u{28e4}\u{28c0}\u{2840}\u{2880}\u{2820}\u{2814}\u{2812}\u{2811}\u{280a}\u{2809}\u{2801}");
}

/// Collects the characters of a string slice into a vector, in order.
fn str_chars(s: &str) -> (r: Vec<char>)
    ensures
        r@ == s@,
{
    let n = s.unicode_len();
    let mut r: Vec<char> = Vec::new();
    let mut i: usize = 0;
    while i < n
        invariant
            n == s@.len(),
            i <= n,
            r@ == s@.subrange(0, i as int),
        decreases n - i,
    {
        r.push(s.get_char(i));
        i = i + 1;
        proof {
            assert(r@ =~= s@.subrange(0, i as int));
        }
    }
    proof {
        assert(r@ =~= s@);
    }
    r
}

} // verus!
