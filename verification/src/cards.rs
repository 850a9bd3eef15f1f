use vstd::prelude::*;

verus! {

/// One selectable estimation card: a display label plus an optional numeric
/// value (absent for symbolic cards such as "?").
#[derive(Debug)]
pub struct Card {
    display: String,
    value: Option<u32>,
}

impl Card {
    /// The label shown to users.
    pub closed spec fn spec_display(self) -> Seq<char> {
        self.display@
    }

    /// The numeric estimate the card stands for, if any.
    pub closed spec fn spec_value(self) -> Option<u32> {
        self.value
    }

    pub fn valueless(display: String) -> (r: Self)
        ensures
            r.spec_display() == display@,
            r.spec_value() is None,
    {
        Self::new(display, None)
    }

    pub fn valued(display: String, value: u32) -> (r: Self)
        ensures
            r.spec_display() == display@,
            r.spec_value() == Some(value),
    {
        Self::new(display, Some(value))
    }

    pub fn new(display: String, value: Option<u32>) -> (r: Self)
        ensures
            r.spec_display() == display@,
            r.spec_value() == value,
    {
        Self { display, value }
    }

    pub fn value(&self) -> (r: Option<u32>)
        ensures
            r == self.spec_value(),
    {
        self.value
    }

    pub fn as_str(&self) -> (r: &str)
        ensures
            r@ == self.spec_display(),
    {
        self.display.as_str()
    }
}

impl Clone for Card {
    fn clone(&self) -> (r: Self)
        ensures
            r == *self,
    {
        Card { display: self.display.clone(), value: self.value }
    }
}

/// The label of the numeric card for `digit`, i.e. the decimal digit itself.
pub open spec fn spec_digit_label(digit: u32) -> Seq<char> {
    if digit == 1 {
        "1"@
    } else if digit == 2 {
        "2"@
    } else if digit == 3 {
        "3"@
    } else if digit == 4 {
        "4"@
    } else if digit == 5 {
        "5"@
    } else if digit == 6 {
        "6"@
    } else if digit == 7 {
        "7"@
    } else if digit == 8 {
        "8"@
    } else {
        "9"@
    }
}

fn digit_label(digit: u32) -> (r: String)
    requires
        1 <= digit <= 9,
    ensures
        r@ == spec_digit_label(digit),
{
    let s: &str = match digit {
        1 => "1",
        2 => "2",
        3 => "3",
        4 => "4",
        5 => "5",
        6 => "6",
        7 => "7",
        8 => "8",
        _ => "9",
    };
    String::from_str(s)
}

/// The fixed deck every room is created with: one card per digit 1 through 9,
/// each valued accordingly, followed by one valueless "?" card.
pub open spec fn is_default_deck(cards: Seq<Card>) -> bool {
    &&& cards.len() == 10
    &&& forall|i: int|
        0 <= i < 9 ==> (#[trigger] cards[i]).spec_value() == Some((i + 1) as u32)
            && cards[i].spec_display() == spec_digit_label((i + 1) as u32)
    &&& cards[9].spec_value() is None
    &&& cards[9].spec_display() == "?"@
}

/// Builds the fixed default deck.
pub fn default_deck() -> (r: Vec<Card>)
    ensures
        is_default_deck(r@),
{
    let mut cards: Vec<Card> = Vec::new();
    let mut digit: u32 = 1;
    while digit <= 9
        invariant
            1 <= digit <= 10,
            cards@.len() == digit - 1,
            forall|i: int|
                0 <= i < digit - 1 ==> (#[trigger] cards@[i]).spec_value() == Some((i + 1) as u32)
                    && cards@[i].spec_display() == spec_digit_label((i + 1) as u32),
        decreases 10 - digit,
    {
        cards.push(Card::valued(digit_label(digit), digit));
        digit = digit + 1;
    }
    cards.push(Card::valueless(String::from_str("?")));
    cards
}

} // verus!
