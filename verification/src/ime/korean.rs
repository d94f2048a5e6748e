use vstd::prelude::*;

verus! {

/// First code point of the precomposed Hangul syllable block (가).
pub const KOREAN_BASE: u32 = 0xAC00;

/// Number of medial vowels (jungsung).
pub const JUNGSUNG_COUNT: u32 = 21;

/// Number of final consonant slots (jongsung), the empty slot included.
pub const JONGSUNG_COUNT: u32 = 28;

/// Index of `ch` as an initial consonant (chosung), in the order that
/// Unicode uses to compose syllables.
pub open spec fn spec_chosung_index(ch: char) -> Option<u32> {
    match ch {
        'ㄱ' => Some(0),
        'ㄲ' => Some(1),
        'ㄴ' => Some(2),
        'ㄷ' => Some(3),
        'ㄸ' => Some(4),
        'ㄹ' => Some(5),
        'ㅁ' => Some(6),
        'ㅂ' => Some(7),
        'ㅃ' => Some(8),
        'ㅅ' => Some(9),
        'ㅆ' => Some(10),
        'ㅇ' => Some(11),
        'ㅈ' => Some(12),
        'ㅉ' => Some(13),
        'ㅊ' => Some(14),
        'ㅋ' => Some(15),
        'ㅌ' => Some(16),
        'ㅍ' => Some(17),
        'ㅎ' => Some(18),
        _ => None,
    }
}

/// Index of `ch` as a final consonant (jongsung); index 0 stands for "no final".
pub open spec fn spec_jongsung_index(ch: char) -> Option<u32> {
    match ch {
        'ㄱ' => Some(1),
        'ㄲ' => Some(2),
        'ㄳ' => Some(3),
        'ㄴ' => Some(4),
        'ㄵ' => Some(5),
        'ㄶ' => Some(6),
        'ㄷ' => Some(7),
        'ㄹ' => Some(8),
        'ㄺ' => Some(9),
        'ㄻ' => Some(10),
        'ㄼ' => Some(11),
        'ㄽ' => Some(12),
        'ㄾ' => Some(13),
        'ㄿ' => Some(14),
        'ㅀ' => Some(15),
        'ㅁ' => Some(16),
        'ㅂ' => Some(17),
        'ㅄ' => Some(18),
        'ㅅ' => Some(19),
        'ㅆ' => Some(20),
        'ㅇ' => Some(21),
        'ㅈ' => Some(22),
        'ㅊ' => Some(23),
        'ㅋ' => Some(24),
        'ㅌ' => Some(25),
        'ㅍ' => Some(26),
        'ㅎ' => Some(27),
        _ => None,
    }
}

/// Compatibility jamo consonants: U+3131 (ㄱ) through U+314E (ㅎ).
pub open spec fn spec_is_consonant(ch: char) -> bool {
    0x3131 <= (ch as u32) <= 0x314E
}

/// Compatibility jamo vowels: U+314F (ㅏ) through U+3163 (ㅣ).
pub open spec fn spec_is_vowel(ch: char) -> bool {
    0x314F <= (ch as u32) <= 0x3163
}

/// The vowels are contiguous in Unicode and already in medial order, so the
/// medial index is the distance from ㅏ.
pub open spec fn spec_jungsung_index(ch: char) -> Option<u32> {
    if spec_is_vowel(ch) {
        Some((ch as u32 - 0x314F) as u32)
    } else {
        None
    }
}

/// Maps an initial consonant to its chosung index.
pub fn get_chosung_index(ch: char) -> (r: Option<u32>)
    ensures
        r == spec_chosung_index(ch),
        r matches Some(i) ==> i < 19 && spec_is_consonant(ch),
{
    match ch {
        'ㄱ' => Some(0),
        'ㄲ' => Some(1),
        'ㄴ' => Some(2),
        'ㄷ' => Some(3),
        'ㄸ' => Some(4),
        'ㄹ' => Some(5),
        'ㅁ' => Some(6),
        'ㅂ' => Some(7),
        'ㅃ' => Some(8),
        'ㅅ' => Some(9),
        'ㅆ' => Some(10),
        'ㅇ' => Some(11),
        'ㅈ' => Some(12),
        'ㅉ' => Some(13),
        'ㅊ' => Some(14),
        'ㅋ' => Some(15),
        'ㅌ' => Some(16),
        'ㅍ' => Some(17),
        'ㅎ' => Some(18),
        _ => None,
    }
}

/// Maps a vowel to its jungsung index.
pub fn get_jungsung_index(ch: char) -> (r: Option<u32>)
    ensures
        r == spec_jungsung_index(ch),
        r matches Some(i) ==> i < JUNGSUNG_COUNT,
{
    match ch {
        'ㅏ' => Some(0),
        'ㅐ' => Some(1),
        'ㅑ' => Some(2),
        'ㅒ' => Some(3),
        'ㅓ' => Some(4),
        'ㅔ' => Some(5),
        'ㅕ' => Some(6),
        'ㅖ' => Some(7),
        'ㅗ' => Some(8),
        'ㅘ' => Some(9),
        'ㅙ' => Some(10),
        'ㅚ' => Some(11),
        'ㅛ' => Some(12),
        'ㅜ' => Some(13),
        'ㅝ' => Some(14),
        'ㅞ' => Some(15),
        'ㅟ' => Some(16),
        'ㅠ' => Some(17),
        'ㅡ' => Some(18),
        'ㅢ' => Some(19),
        'ㅣ' => Some(20),
        _ => None,
    }
}

/// Maps a final consonant (simple or compound) to its jongsung index.
pub fn get_jongsung_index(ch: char) -> (r: Option<u32>)
    ensures
        r == spec_jongsung_index(ch),
        r matches Some(i) ==> 1 <= i < JONGSUNG_COUNT && spec_is_consonant(ch),
{
    match ch {
        'ㄱ' => Some(1),
        'ㄲ' => Some(2),
        'ㄳ' => Some(3),
        'ㄴ' => Some(4),
        'ㄵ' => Some(5),
        'ㄶ' => Some(6),
        'ㄷ' => Some(7),
        'ㄹ' => Some(8),
        'ㄺ' => Some(9),
        'ㄻ' => Some(10),
        'ㄼ' => Some(11),
        'ㄽ' => Some(12),
        'ㄾ' => Some(13),
        'ㄿ' => Some(14),
        'ㅀ' => Some(15),
        'ㅁ' => Some(16),
        'ㅂ' => Some(17),
        'ㅄ' => Some(18),
        'ㅅ' => Some(19),
        'ㅆ' => Some(20),
        'ㅇ' => Some(21),
        'ㅈ' => Some(22),
        'ㅊ' => Some(23),
        'ㅋ' => Some(24),
        'ㅌ' => Some(25),
        'ㅍ' => Some(26),
        'ㅎ' => Some(27),
        _ => None,
    }
}

/// The compound vowels: a base vowel followed by a second vowel.
pub open spec fn spec_combine_vowels(base: char, add: char) -> Option<char> {
    match (base, add) {
        ('ㅗ', 'ㅏ') => Some('ㅘ'),
        ('ㅗ', 'ㅐ') => Some('ㅙ'),
        ('ㅗ', 'ㅣ') => Some('ㅚ'),
        ('ㅜ', 'ㅓ') => Some('ㅝ'),
        ('ㅜ', 'ㅔ') => Some('ㅞ'),
        ('ㅜ', 'ㅣ') => Some('ㅟ'),
        ('ㅡ', 'ㅣ') => Some('ㅢ'),
        _ => None,
    }
}

/// The compound final consonants: a base consonant followed by a second one.
pub open spec fn spec_combine_consonants(base: char, add: char) -> Option<char> {
    match (base, add) {
        ('ㄱ', 'ㅅ') => Some('ㄳ'),
        ('ㄴ', 'ㅈ') => Some('ㄵ'),
        ('ㄴ', 'ㅎ') => Some('ㄶ'),
        ('ㄹ', 'ㄱ') => Some('ㄺ'),
        ('ㄹ', 'ㅁ') => Some('ㄻ'),
        ('ㄹ', 'ㅂ') => Some('ㄼ'),
        ('ㄹ', 'ㅅ') => Some('ㄽ'),
        ('ㄹ', 'ㅌ') => Some('ㄾ'),
        ('ㄹ', 'ㅍ') => Some('ㄿ'),
        ('ㄹ', 'ㅎ') => Some('ㅀ'),
        ('ㅂ', 'ㅅ') => Some('ㅄ'),
        _ => None,
    }
}

/// Combines two vowels into a compound vowel, where Hangul has one.
pub fn combine_vowels(base: char, add: char) -> (r: Option<char>)
    ensures
        r == spec_combine_vowels(base, add),
        r matches Some(c) ==> spec_is_vowel(c),
{
    match (base, add) {
        ('ㅗ', 'ㅏ') => Some('ㅘ'),
        ('ㅗ', 'ㅐ') => Some('ㅙ'),
        ('ㅗ', 'ㅣ') => Some('ㅚ'),
        ('ㅜ', 'ㅓ') => Some('ㅝ'),
        ('ㅜ', 'ㅔ') => Some('ㅞ'),
        ('ㅜ', 'ㅣ') => Some('ㅟ'),
        ('ㅡ', 'ㅣ') => Some('ㅢ'),
        _ => None,
    }
}

/// Combines two consonants into a compound final consonant, where Hangul has one.
pub fn combine_consonants(base: char, add: char) -> (r: Option<char>)
    ensures
        r == spec_combine_consonants(base, add),
        r matches Some(c) ==> spec_is_consonant(c) && spec_jongsung_index(c) is Some,
{
    match (base, add) {
        ('ㄱ', 'ㅅ') => Some('ㄳ'),
        ('ㄴ', 'ㅈ') => Some('ㄵ'),
        ('ㄴ', 'ㅎ') => Some('ㄶ'),
        ('ㄹ', 'ㄱ') => Some('ㄺ'),
        ('ㄹ', 'ㅁ') => Some('ㄻ'),
        ('ㄹ', 'ㅂ') => Some('ㄼ'),
        ('ㄹ', 'ㅅ') => Some('ㄽ'),
        ('ㄹ', 'ㅌ') => Some('ㄾ'),
        ('ㄹ', 'ㅍ') => Some('ㄿ'),
        ('ㄹ', 'ㅎ') => Some('ㅀ'),
        ('ㅂ', 'ㅅ') => Some('ㅄ'),
        _ => None,
    }
}

/// A `u32` that names a Unicode scalar value, i.e. a valid `char`.
pub open spec fn is_unicode_scalar(code: int) -> bool {
    0 <= code <= 0x10FFFF && !(0xD800 <= code <= 0xDFFF)
}

/// Code point of the syllable with the given initial, medial and final indices.
pub open spec fn syllable_code(chosung: int, jungsung: int, jongsung: int) -> int {
    KOREAN_BASE + (chosung * JUNGSUNG_COUNT + jungsung) * JONGSUNG_COUNT + jongsung
}

/// The character `compose_korean` gives: the syllable, or `?` where the code
/// point is not a valid `char`.
pub open spec fn spec_compose_korean(chosung: u32, jungsung: u32, jongsung: u32) -> char {
    let code = syllable_code(chosung as int, jungsung as int, jongsung as int);
    if is_unicode_scalar(code) {
        code as char
    } else {
        '?'
    }
}

/// Wraps `char::from_u32`, which by its documentation returns `Some` exactly
/// for the Unicode scalar values (at most U+10FFFF, surrogates excluded),
/// holding the `char` with that code point.
#[verifier::external_body]
fn char_from_u32(code: u32) -> (r: Option<char>)
    ensures
        r is Some <==> is_unicode_scalar(code as int),
        r matches Some(c) ==> c as u32 == code,
{
    char::from_u32(code)
}

/// Composes a Hangul syllable from its jamo indices.
pub fn compose_korean(chosung: u32, jungsung: u32, jongsung: u32) -> (r: char)
    requires
        syllable_code(chosung as int, jungsung as int, jongsung as int) <= u32::MAX,
    ensures
        r == spec_compose_korean(chosung, jungsung, jongsung),
{
    proof {
        assert(chosung * JUNGSUNG_COUNT <= (chosung * JUNGSUNG_COUNT + jungsung) * JONGSUNG_COUNT)
            by (nonlinear_arith);
    }
    let code = KOREAN_BASE + (chosung * JUNGSUNG_COUNT + jungsung) * JONGSUNG_COUNT + jongsung;
    match char_from_u32(code) {
        Some(c) => {
            proof { vstd::utf8::char_u32_cast(c, code); }
            c
        },
        None => '?',
    }
}

/// True for the compatibility jamo consonants ㄱ through ㅎ.
pub fn is_consonant(ch: char) -> (r: bool)
    ensures
        r == spec_is_consonant(ch),
{
    'ㄱ' <= ch && ch <= 'ㅎ'
}

/// True for the compatibility jamo vowels ㅏ through ㅣ.
pub fn is_vowel(ch: char) -> (r: bool)
    ensures
        r == spec_is_vowel(ch),
{
    'ㅏ' <= ch && ch <= 'ㅣ'
}

/// The character, if any, as a sequence.
pub open spec fn option_seq(c: Option<char>) -> Seq<char> {
    match c {
        Some(x) => seq![x],
        None => Seq::empty(),
    }
}

/// State of the syllable being composed: its initial consonant, medial vowel
/// and final consonant, each absent until typed.
#[derive(Clone, Copy, Debug)]
pub struct KoreanInputState {
    pub chosung: Option<char>,
    pub jungsung: Option<char>,
    pub jongsung: Option<char>,
    pub is_composing: bool,
}

impl KoreanInputState {
    /// The state with nothing composed.
    pub open spec fn empty() -> KoreanInputState {
        KoreanInputState { chosung: None, jungsung: None, jongsung: None, is_composing: false }
    }

    /// The state the input method keeps: a medial only after an initial, a
    /// final only after a medial, each slot holding a jamo of its kind, and
    /// composition under way exactly while an initial is held.
    pub open spec fn wf(self) -> bool {
        &&& self.jungsung is Some ==> self.chosung is Some
        &&& self.jongsung is Some ==> self.jungsung is Some
        &&& self.chosung matches Some(c) ==> spec_is_consonant(c)
        &&& self.jungsung matches Some(v) ==> spec_is_vowel(v)
        &&& self.jongsung matches Some(c) ==> spec_is_consonant(c)
        &&& self.is_composing == (self.chosung is Some)
    }

    /// The character shown for the syllable being composed: the full syllable
    /// once a vowel is present (the final, if any and valid, included), the
    /// bare initial before that, nothing when no initial is held.
    pub open spec fn spec_current_char(self) -> Option<char> {
        match (self.chosung, self.jungsung) {
            (Some(cho), Some(jung)) => match (spec_chosung_index(cho), spec_jungsung_index(jung)) {
                (Some(ci), Some(ji)) => {
                    let jong_idx: u32 = match self.jongsung {
                        Some(j) => match spec_jongsung_index(j) {
                            Some(k) => k,
                            None => 0,
                        },
                        None => 0,
                    };
                    Some(spec_compose_korean(ci, ji, jong_idx))
                },
                _ => None,
            },
            (Some(cho), None) => Some(cho),
            _ => None,
        }
    }

    /// Effect of a backspace: the final goes first, then the medial; a lone
    /// initial ends the composition. The flag tells whether composition goes on.
    pub open spec fn spec_backspace(self) -> (KoreanInputState, bool) {
        if !self.is_composing {
            (self, false)
        } else if self.jongsung is Some {
            (KoreanInputState { jongsung: None, ..self }, true)
        } else if self.jungsung is Some {
            (KoreanInputState { jungsung: None, ..self }, true)
        } else if self.chosung is Some {
            (KoreanInputState::empty(), false)
        } else {
            (self, false)
        }
    }

    /// The state holding only the initial `ch`, composition under way.
    pub open spec fn starting_with(ch: char) -> KoreanInputState {
        KoreanInputState { chosung: Some(ch), jungsung: None, jongsung: None, is_composing: true }
    }

    /// Effect of typing the jamo `ch`: the new state, and the characters to
    /// send on, in order (a completed syllable, or a vowel that cannot join
    /// the syllable being composed).
    pub open spec fn spec_process_korean_char(self, ch: char) -> (KoreanInputState, Seq<char>) {
        if spec_is_consonant(ch) {
            if self.chosung is None {
                (KoreanInputState { chosung: Some(ch), is_composing: true, ..self }, Seq::empty())
            } else if self.jungsung is Some && self.jongsung is None {
                (KoreanInputState { jongsung: Some(ch), ..self }, Seq::empty())
            } else if self.jongsung is Some {
                match spec_combine_consonants(self.jongsung->0, ch) {
                    Some(c) => (KoreanInputState { jongsung: Some(c), ..self }, Seq::empty()),
                    None => (KoreanInputState::starting_with(ch), option_seq(self.spec_current_char())),
                }
            } else {
                (KoreanInputState::starting_with(ch), option_seq(self.spec_current_char()))
            }
        } else if spec_is_vowel(ch) {
            if self.chosung is Some && self.jungsung is None {
                (KoreanInputState { jungsung: Some(ch), ..self }, Seq::empty())
            } else if self.jungsung is Some {
                if self.jongsung is Some {
                    let completed = spec_compose_korean(
                        spec_chosung_index(self.chosung->0)->0,
                        spec_jungsung_index(self.jungsung->0)->0,
                        0,
                    );
                    (
                        KoreanInputState {
                            chosung: self.jongsung,
                            jungsung: Some(ch),
                            jongsung: None,
                            is_composing: true,
                        },
                        seq![completed],
                    )
                } else {
                    match spec_combine_vowels(self.jungsung->0, ch) {
                        Some(c) => (KoreanInputState { jungsung: Some(c), ..self }, Seq::empty()),
                        None => (
                            KoreanInputState::empty(),
                            option_seq(self.spec_current_char()).push(ch),
                        ),
                    }
                }
            } else {
                (self, seq![ch])
            }
        } else {
            (self, Seq::empty())
        }
    }

    /// Typing `ch` is handled without a panic: splitting a final off onto a new
    /// vowel needs the held initial and medial to have syllable indices.
    pub open spec fn korean_char_defined(self, ch: char) -> bool {
        (!spec_is_consonant(ch) && spec_is_vowel(ch) && self.jungsung is Some
            && self.jongsung is Some) ==> {
            &&& self.chosung is Some
            &&& spec_chosung_index(self.chosung->0) is Some
            &&& spec_jungsung_index(self.jungsung->0) is Some
        }
    }

    /// Effect of ending the composition: the syllable so far is sent on and
    /// the state is emptied; nothing happens when nothing is being composed.
    pub open spec fn spec_finalize(self) -> (KoreanInputState, Option<char>) {
        if self.is_composing {
            (KoreanInputState::empty(), self.spec_current_char())
        } else {
            (self, None)
        }
    }

    /// Effect of one typed character: jamo go through composition, any other
    /// character first ends the composition and is then sent on itself.
    /// Returns the new state and the characters to send, in order.
    pub open spec fn spec_process_single_char(self, ch: char) -> (KoreanInputState, Seq<char>) {
        if spec_is_consonant(ch) || spec_is_vowel(ch) {
            self.spec_process_korean_char(ch)
        } else {
            let (s, out) = self.spec_finalize();
            (s, match out { Some(c) => seq![c, ch], None => seq![ch] })
        }
    }

    /// The characters of `text` typed in turn: the composition afterwards and
    /// everything sent along the way, in order.
    pub open spec fn spec_process_text(self, text: Seq<char>) -> (KoreanInputState, Seq<char>)
        decreases text.len(),
    {
        if text.len() == 0 {
            (self, Seq::empty())
        } else {
            let (s, out) = self.spec_process_text(text.drop_last());
            let (next, more) = s.spec_process_single_char(text.last());
            (next, out + more)
        }
    }

    /// Each character of `text`, typed in turn, can be handled.
    pub open spec fn text_defined(self, text: Seq<char>) -> bool
        decreases text.len(),
    {
        text.len() == 0 || (self.text_defined(text.drop_last())
            && self.spec_process_text(text.drop_last()).0.korean_char_defined(text.last()))
    }

    pub fn new() -> (s: Self)
        ensures
            s == KoreanInputState::empty(),
    {
        KoreanInputState { chosung: None, jungsung: None, jongsung: None, is_composing: false }
    }

    pub fn reset(&mut self)
        ensures
            *final(self) == KoreanInputState::empty(),
    {
        self.chosung = None;
        self.jungsung = None;
        self.jongsung = None;
        self.is_composing = false;
    }

    /// The character being composed, as it should be shown.
    pub fn get_current_char(&self) -> (r: Option<char>)
        ensures
            r == self.spec_current_char(),
    {
        match (self.chosung, self.jungsung) {
            (Some(cho), Some(jung)) => {
                let cho_idx = match get_chosung_index(cho) {
                    Some(i) => i,
                    None => return None,
                };
                let jung_idx = match get_jungsung_index(jung) {
                    Some(i) => i,
                    None => return None,
                };
                let jong_idx: u32 = match self.jongsung {
                    Some(j) => match get_jongsung_index(j) {
                        Some(k) => k,
                        None => 0,
                    },
                    None => 0,
                };
                Some(compose_korean(cho_idx, jung_idx, jong_idx))
            },
            (Some(cho), None) => Some(cho),
            _ => None,
        }
    }

    /// Undoes the composition one jamo at a time; returns whether composition
    /// goes on.
    pub fn handle_backspace(&mut self) -> (r: bool)
        ensures
            (*final(self), r) == old(self).spec_backspace(),
    {
        if !self.is_composing {
            return false;
        }
        if self.jongsung.is_some() {
            self.jongsung = None;
            return true;
        }
        if self.jungsung.is_some() {
            self.jungsung = None;
            return true;
        }
        if self.chosung.is_some() {
            self.reset();
            return false;
        }
        false
    }

    /// Exec test of `korean_char_defined`.
    pub fn can_process_korean_char(&self, ch: char) -> (r: bool)
        ensures
            r == self.korean_char_defined(ch),
    {
        if !is_consonant(ch) && is_vowel(ch) && self.jungsung.is_some() && self.jongsung.is_some() {
            match (self.chosung, self.jungsung) {
                (Some(cho), Some(jung)) => get_chosung_index(cho).is_some()
                    && get_jungsung_index(jung).is_some(),
                _ => false,
            }
        } else {
            true
        }
    }

    /// Feeds one jamo into the composition; returns the characters to send
    /// on: a completed syllable, and a vowel that cannot join the syllable.
    pub fn process_korean_char(&mut self, ch: char) -> (r: Vec<char>)
        requires
            old(self).korean_char_defined(ch),
        ensures
            (*final(self), r@) == old(self).spec_process_korean_char(ch),
    {
        let mut out: Vec<char> = Vec::new();
        if is_consonant(ch) {
            if self.chosung.is_none() {
                self.chosung = Some(ch);
                self.is_composing = true;
            } else if self.jungsung.is_some() && self.jongsung.is_none() {
                self.jongsung = Some(ch);
            } else if let Some(existing_jong) = self.jongsung {
                if let Some(combined) = combine_consonants(existing_jong, ch) {
                    self.jongsung = Some(combined);
                } else {
                    if let Some(completed) = self.get_current_char() {
                        out.push(completed);
                    }
                    self.reset();
                    self.chosung = Some(ch);
                    self.is_composing = true;
                }
            } else {
                if let Some(completed) = self.get_current_char() {
                    out.push(completed);
                }
                self.reset();
                self.chosung = Some(ch);
                self.is_composing = true;
            }
        } else if is_vowel(ch) {
            if self.chosung.is_some() && self.jungsung.is_none() {
                self.jungsung = Some(ch);
            } else if let Some(existing_jung) = self.jungsung {
                if let Some(jong) = self.jongsung {
                    let cho = match self.chosung {
                        Some(c) => c,
                        None => return out,
                    };
                    let cho_idx = match get_chosung_index(cho) {
                        Some(i) => i,
                        None => return out,
                    };
                    let jung_idx = match get_jungsung_index(existing_jung) {
                        Some(i) => i,
                        None => return out,
                    };
                    let completed = compose_korean(cho_idx, jung_idx, 0);
                    self.reset();
                    self.chosung = Some(jong);
                    self.jungsung = Some(ch);
                    self.is_composing = true;
                    out.push(completed);
                } else {
                    if let Some(combined) = combine_vowels(existing_jung, ch) {
                        self.jungsung = Some(combined);
                    } else {
                        if let Some(completed) = self.get_current_char() {
                            out.push(completed);
                        }
                        self.reset();
                        out.push(ch);
                    }
                }
            } else {
                out.push(ch);
            }
        }
        assert(out@ =~= old(self).spec_process_korean_char(ch).1);
        out
    }

    /// Ends the composition; returns the character to send on, if any.
    pub fn finalize_korean_composition(&mut self) -> (r: Option<char>)
        ensures
            (*final(self), r) == old(self).spec_finalize(),
    {
        if self.is_composing {
            let completed = self.get_current_char();
            self.reset();
            completed
        } else {
            None
        }
    }

    /// Handles one typed character; returns the characters to send on.
    pub fn process_single_char(&mut self, ch: char) -> (out: Vec<char>)
        requires
            old(self).korean_char_defined(ch),
        ensures
            (*final(self), out@) == old(self).spec_process_single_char(ch),
    {
        if is_consonant(ch) || is_vowel(ch) {
            return self.process_korean_char(ch);
        }
        let mut out: Vec<char> = Vec::new();
        if let Some(completed) = self.finalize_korean_composition() {
            out.push(completed);
        }
        out.push(ch);
        out
    }

    /// Handles the characters of a text event in turn, up to the first one that
    /// cannot be handled; returns the characters to send and the index of
    /// that character, if there is one.
    pub fn process_text(&mut self, text: &Vec<char>) -> (r: (Vec<char>, Option<usize>))
        ensures
            match r.1 {
                None => {
                    &&& old(self).text_defined(text@)
                    &&& (*final(self), r.0@) == old(self).spec_process_text(text@)
                },
                Some(i) => {
                    &&& i < text.len()
                    &&& old(self).text_defined(text@.take(i as int))
                    &&& !old(self).spec_process_text(text@.take(i as int)).0.korean_char_defined(text@[i as int])
                    &&& (*final(self), r.0@) == old(self).spec_process_text(text@.take(i as int))
                },
            },
    {
        let mut out: Vec<char> = Vec::new();
        let mut i: usize = 0;
        assert(text@.take(0) =~= Seq::<char>::empty());
        while i < text.len()
            invariant
                i <= text.len(),
                old(self).text_defined(text@.take(i as int)),
                (*self, out@) == old(self).spec_process_text(text@.take(i as int)),
            decreases text.len() - i,
        {
            let ch = text[i];
            if !self.can_process_korean_char(ch) {
                return (out, Some(i));
            }
            let mut more = self.process_single_char(ch);
            out.append(&mut more);
            proof {
                assert(text@.take(i + 1).drop_last() =~= text@.take(i as int));
                assert(text@.take(i + 1).last() == ch);
            }
            i = i + 1;
        }
        assert(text@.take(text.len() as int) =~= text@);
        (out, None)
    }
}

/// A vowel that cannot join the medial of the syllable being composed is not
/// lost: what the composition shows is sent, then the vowel itself, and the
/// composition is over.
pub proof fn lemma_uncombinable_vowel_is_sent(s: KoreanInputState, v: char)
    requires
        s.wf(),
        s.jungsung is Some,
        s.jongsung is None,
        spec_is_vowel(v),
        spec_combine_vowels(s.jungsung->0, v) is None,
    ensures
        s.spec_process_single_char(v) == (KoreanInputState::empty(), option_seq(s.spec_current_char()).push(v)),
{
}

/// Every syllable built from valid jamo indices lies in the block 가..힣, and
/// its code point gives the three indices back.
pub proof fn lemma_syllable_roundtrip(chosung: u32, jungsung: u32, jongsung: u32)
    requires
        chosung < 19,
        jungsung < JUNGSUNG_COUNT,
        jongsung < JONGSUNG_COUNT,
    ensures
        ({
            let c = spec_compose_korean(chosung, jungsung, jongsung) as u32;
            &&& c as int == syllable_code(chosung as int, jungsung as int, jongsung as int)
            &&& 0xAC00 <= c <= 0xD7A3
            &&& (c - 0xAC00) / 588 == chosung
            &&& ((c - 0xAC00) / 28) % 21 == jungsung
            &&& (c - 0xAC00) % 28 == jongsung
        }),
{
    let code = syllable_code(chosung as int, jungsung as int, jongsung as int);
    let off = code - 0xAC00;
    assert(off == (chosung * 21 + jungsung) * 28 + jongsung);
    assert(off == chosung * 588 + jungsung * 28 + jongsung) by (nonlinear_arith)
        requires
            off == (chosung * 21 + jungsung) * 28 + jongsung,
    ;
    assert(0 <= off <= 18 * 588 + 20 * 28 + 27) by (nonlinear_arith)
        requires
            off == chosung * 588 + jungsung * 28 + jongsung,
            chosung < 19,
            jungsung < 21,
            jongsung < 28,
    ;
    assert(off / 588 == chosung && (off / 28) % 21 == jungsung && off % 28 == jongsung)
        by (nonlinear_arith)
        requires
            off == chosung * 588 + jungsung * 28 + jongsung,
            0 <= chosung < 19,
            0 <= jungsung < 21,
            0 <= jongsung < 28,
    ;
    assert(is_unicode_scalar(code));
    let c = code as char;
    assert(c as u32 == code) by {
        vstd::utf8::char_is_scalar(c);
    }
}

/// The empty state, and every state the input method moves to from a
/// well-formed one, is well-formed again.
pub proof fn lemma_wf_preserved(s: KoreanInputState, ch: char)
    requires
        s.wf(),
    ensures
        KoreanInputState::empty().wf(),
        s.spec_backspace().0.wf(),
        s.spec_finalize().0.wf(),
        s.korean_char_defined(ch) ==> s.spec_process_korean_char(ch).0.wf(),
        s.korean_char_defined(ch) ==> s.spec_process_single_char(ch).0.wf(),
{
}

/// A backspace takes back the jamo that was just typed into an empty slot of
/// the syllable: the first initial, the first medial, or the first final.
pub proof fn lemma_backspace_undoes_jamo(s: KoreanInputState, ch: char)
    requires
        s.wf(),
        (s.chosung is None && spec_is_consonant(ch))
            || (s.chosung is Some && s.jungsung is None && spec_is_vowel(ch))
            || (s.jungsung is Some && s.jongsung is None && spec_is_consonant(ch)),
    ensures
        s.spec_process_korean_char(ch).1.len() == 0,
        s.spec_process_korean_char(ch).0.spec_backspace().0 == s,
        s.spec_process_korean_char(ch).0.spec_backspace().1 == (s.chosung is Some),
{
}

/// After a composition is ended nothing is being composed and nothing is shown.
pub proof fn lemma_finalize_clears(s: KoreanInputState)
    requires
        s.wf(),
    ensures
        !s.spec_finalize().0.is_composing,
        s.spec_finalize().0.spec_current_char() is None,
        s.is_composing ==> s.spec_finalize().1 == s.spec_current_char(),
{
}

/// The compound final consonants of Unicode's compatibility jamo: each is
/// written as two consonants.
pub open spec fn is_compound_consonant(ch: char) -> bool {
    ch == 'ㄳ' || ch == 'ㄵ' || ch == 'ㄶ' || ch == 'ㄺ' || ch == 'ㄻ' || ch == 'ㄼ' || ch == 'ㄽ'
        || ch == 'ㄾ' || ch == 'ㄿ' || ch == 'ㅀ' || ch == 'ㅄ'
}

/// The doubled consonants that begin a syllable but never end one.
pub open spec fn is_initial_only(ch: char) -> bool {
    ch == 'ㄸ' || ch == 'ㅃ' || ch == 'ㅉ'
}

/// The compound vowels of Unicode's compatibility jamo: each is written as two vowels.
pub open spec fn is_compound_vowel(ch: char) -> bool {
    ch == 'ㅘ' || ch == 'ㅙ' || ch == 'ㅚ' || ch == 'ㅝ' || ch == 'ㅞ' || ch == 'ㅟ' || ch == 'ㅢ'
}

/// The initial consonants are the consonants that are not compounds, indexed
/// 0 (ㄱ) to 18 (ㅎ) in the order of their code points.
pub proof fn lemma_chosung_index_order(a: char, b: char)
    ensures
        spec_chosung_index(a) is Some <==> spec_is_consonant(a) && !is_compound_consonant(a),
        spec_chosung_index(a) matches Some(i) ==> i < 19,
        spec_chosung_index('ㄱ') == Some(0u32),
        spec_chosung_index('ㅎ') == Some(18u32),
        (spec_chosung_index(a) is Some && spec_chosung_index(b) is Some && (a as u32) < (b as u32))
            ==> spec_chosung_index(a)->0 < spec_chosung_index(b)->0,
{
}

/// The final consonants are the consonants other than ㄸ, ㅃ and ㅉ, indexed
/// 1 (ㄱ) to 27 (ㅎ) in the order of their code points (0 standing for no
/// final).
pub proof fn lemma_jongsung_index_order(a: char, b: char)
    ensures
        spec_jongsung_index(a) is Some <==> spec_is_consonant(a) && !is_initial_only(a),
        spec_jongsung_index(a) matches Some(i) ==> 1 <= i <= 27,
        spec_jongsung_index('ㄱ') == Some(1u32),
        spec_jongsung_index('ㅎ') == Some(27u32),
        (spec_jongsung_index(a) is Some && spec_jongsung_index(b) is Some && (a as u32) < (b as u32))
            ==> spec_jongsung_index(a)->0 < spec_jongsung_index(b)->0,
{
}

/// The medial index of a vowel is its distance in code points from ㅏ.
pub proof fn lemma_jungsung_index_order(a: char)
    ensures
        spec_jungsung_index(a) is Some <==> 0x314F <= (a as u32) <= 0x3163,
        spec_jungsung_index(a) matches Some(i) ==> i as u32 + 0x314F == a as u32,
{
}

/// Two consonants combine only into a compound final consonant, and every
/// compound final is made from its two written parts, in order, and from
/// nothing else.
pub proof fn lemma_combine_consonants_compounds(a: char, b: char, a2: char, b2: char)
    ensures
        spec_combine_consonants(a, b) matches Some(c) ==> is_compound_consonant(c)
            && spec_jongsung_index(c) is Some && spec_chosung_index(a) is Some && spec_chosung_index(b) is Some,
        (spec_combine_consonants(a, b) is Some && spec_combine_consonants(a, b) == spec_combine_consonants(a2, b2))
            ==> a == a2 && b == b2,
        spec_combine_consonants('ㄱ', 'ㅅ') == Some('ㄳ'),
        spec_combine_consonants('ㄴ', 'ㅈ') == Some('ㄵ'),
        spec_combine_consonants('ㄴ', 'ㅎ') == Some('ㄶ'),
        spec_combine_consonants('ㄹ', 'ㄱ') == Some('ㄺ'),
        spec_combine_consonants('ㄹ', 'ㅁ') == Some('ㄻ'),
        spec_combine_consonants('ㄹ', 'ㅂ') == Some('ㄼ'),
        spec_combine_consonants('ㄹ', 'ㅅ') == Some('ㄽ'),
        spec_combine_consonants('ㄹ', 'ㅌ') == Some('ㄾ'),
        spec_combine_consonants('ㄹ', 'ㅍ') == Some('ㄿ'),
        spec_combine_consonants('ㄹ', 'ㅎ') == Some('ㅀ'),
        spec_combine_consonants('ㅂ', 'ㅅ') == Some('ㅄ'),
{
}

/// Two vowels combine only into a compound vowel, and every compound vowel is
/// made from its two written parts, in order, and from nothing else.
pub proof fn lemma_combine_vowels_compounds(a: char, b: char, a2: char, b2: char)
    ensures
        spec_combine_vowels(a, b) matches Some(c) ==> is_compound_vowel(c) && spec_is_vowel(a)
            && spec_is_vowel(b),
        (spec_combine_vowels(a, b) is Some && spec_combine_vowels(a, b) == spec_combine_vowels(a2, b2))
            ==> a == a2 && b == b2,
        spec_combine_vowels('ㅗ', 'ㅏ') == Some('ㅘ'),
        spec_combine_vowels('ㅗ', 'ㅐ') == Some('ㅙ'),
        spec_combine_vowels('ㅗ', 'ㅣ') == Some('ㅚ'),
        spec_combine_vowels('ㅜ', 'ㅓ') == Some('ㅝ'),
        spec_combine_vowels('ㅜ', 'ㅔ') == Some('ㅞ'),
        spec_combine_vowels('ㅜ', 'ㅣ') == Some('ㅟ'),
        spec_combine_vowels('ㅡ', 'ㅣ') == Some('ㅢ'),
{
}

/// Final index of the final held, 0 when there is none (or it has none).
pub open spec fn held_final_index(s: KoreanInputState) -> u32 {
    match s.jongsung {
        Some(f) => match spec_jongsung_index(f) {
            Some(i) => i,
            None => 0,
        },
        None => 0,
    }
}

/// The syllable shown while composing has the code point of 가 plus 588 per
/// initial index, 28 per medial index and one per final index (0 without a
/// final); with only an initial held, the initial itself is shown.
pub proof fn lemma_current_char_code(s: KoreanInputState)
    requires
        s.wf(),
    ensures
        (s.chosung is Some && s.jungsung is Some && spec_chosung_index(s.chosung->0) is Some) ==> {
            &&& s.spec_current_char() is Some
            &&& s.spec_current_char()->0 as u32 == 0xAC00 + 588 * spec_chosung_index(s.chosung->0)->0
                + 28 * (s.jungsung->0 as u32 - 0x314F) + held_final_index(s)
        },
        (s.chosung is Some && s.jungsung is None) ==> s.spec_current_char() == s.chosung,
        s.chosung is None ==> s.spec_current_char() is None,
{
    if let (Some(cho), Some(jung)) = (s.chosung, s.jungsung) {
        if let Some(ci) = spec_chosung_index(cho) {
            lemma_jungsung_index_order(jung);
            lemma_chosung_index_order(cho, cho);
            let ji = spec_jungsung_index(jung)->0;
            let fi = held_final_index(s);
            if let Some(f) = s.jongsung {
                lemma_jongsung_index_order(f, f);
            }
            lemma_syllable_roundtrip(ci, ji, fi);
        }
    }
}

/// Typing an initial, a vowel and two consonants that form a compound final
/// sends nothing and shows the syllable with that compound final: its code
/// point is 가's plus 588 per initial, 28 per medial and one per final index.
pub proof fn lemma_compound_final_syllable(c: char, v: char, f1: char, f2: char)
    requires
        spec_chosung_index(c) is Some,
        spec_is_vowel(v),
        spec_combine_consonants(f1, f2) is Some,
    ensures
        ({
            let (s, out) = KoreanInputState::empty().spec_process_text(seq![c, v, f1, f2]);
            let cf = spec_combine_consonants(f1, f2)->0;
            &&& out == Seq::<char>::empty()
            &&& s.is_composing
            &&& s.spec_current_char() matches Some(shown)
            &&& shown as u32 == 0xAC00 + 588 * spec_chosung_index(c)->0 + 28 * (v as u32 - 0x314F)
                + spec_jongsung_index(cf)->0
        }),
{
    lemma_combine_consonants_compounds(f1, f2, f1, f2);
    lemma_jungsung_index_order(v);
    let t = seq![c, v, f1, f2];
    assert(t.drop_last() =~= seq![c, v, f1]);
    assert(seq![c, v, f1].drop_last() =~= seq![c, v]);
    assert(seq![c, v].drop_last() =~= seq![c]);
    assert(seq![c].drop_last() =~= Seq::<char>::empty());
    let e = KoreanInputState::empty();
    let s1 = e.spec_process_text(seq![c]);
    let s2 = e.spec_process_text(seq![c, v]);
    let s3 = e.spec_process_text(seq![c, v, f1]);
    let s4 = e.spec_process_text(t);
    lemma_chosung_index_order(c, c);
    assert(e.spec_process_text(Seq::<char>::empty()) == (e, Seq::<char>::empty()));
    assert(Seq::<char>::empty() + Seq::<char>::empty() =~= Seq::<char>::empty());
    assert(s1.0 == KoreanInputState::starting_with(c));
    assert(s1.1 =~= Seq::<char>::empty());
    assert(s2.1 =~= Seq::<char>::empty());
    assert(s3.1 =~= Seq::<char>::empty());
    assert(s4.1 =~= Seq::<char>::empty());
    let cf = spec_combine_consonants(f1, f2)->0;
    assert(s4.0 == (KoreanInputState { chosung: Some(c), jungsung: Some(v), jongsung: Some(cf), is_composing: true }));
    let ci = spec_chosung_index(c)->0;
    let ji = spec_jungsung_index(v)->0;
    let fi = spec_jongsung_index(cf)->0;
    lemma_syllable_roundtrip(ci, ji, fi);
}

} // verus!
