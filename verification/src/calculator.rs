//! The calculator window: where each of its parts stands in its tree, and the snapshot
//! made of what was read of each part, in order.

use vstd::prelude::*;

use crate::element_info::ElementInfo;

verus! {

/// A part of the calculator window.
#[derive(Clone, Copy, Debug, PartialEq, Eq, Structural)]
pub enum CalculatorPart {
    Expression,
    Display,
    ZeroButton,
    OneButton,
    TwoButton,
    ThreeButton,
    FourButton,
    FiveButton,
    SixButton,
    SevenButton,
    EightButton,
    NineButton,
    EqualsButton,
    PlusButton,
    MinusButton,
    MultiplyByButton,
    DivideByButton,
    PositiveNegativeButton,
    LeftParenthesisButton,
    RightParenthesisButton,
    FactorialButton,
    ReciprocalButton,
    AbsoluteValueButton,
    ExponentialButton,
    ModuloButton,
    DisplayControls,
    ClearButton,
    EulersNumberButton,
    PiButton,
    InverseFunctionToggleButton,
    ScientificFunctions,
    SquareRootButton,
    XToTheExponentButton,
    TenToTheExponentButton,
    LogButton,
    NaturalLogButton,
    MemoryControls,
    MemoryRecallButton,
    MemoryAddButton,
    MemorySubtractButton,
    MemoryStoreButton,
    OpenMemoryFlyoutButton,
    DegreesToggleButton,
    ScientificNotationToggleButton,
}

/// The number of parts of the calculator window.
pub const CALCULATOR_PART_COUNT: usize = 44usize;

/// What the library knows of a part: the child positions that lead to it from the
/// calculator window, the name of the snapshot field that holds it, and its position in
/// reading order.
pub open spec fn part_entry(p: CalculatorPart) -> (Seq<usize>, Seq<char>, int) {
    match p {
        CalculatorPart::Expression => (seq![1usize, 2, 1, 0], "expression"@, 0),
        CalculatorPart::Display => (seq![1usize, 2, 1, 1, 0], "display"@, 1),
        CalculatorPart::ZeroButton => (seq![1usize, 2, 1, 20, 0], "zero_button"@, 2),
        CalculatorPart::OneButton => (seq![1usize, 2, 1, 20, 1], "one_button"@, 3),
        CalculatorPart::TwoButton => (seq![1usize, 2, 1, 20, 2], "two_button"@, 4),
        CalculatorPart::ThreeButton => (seq![1usize, 2, 1, 20, 3], "three_button"@, 5),
        CalculatorPart::FourButton => (seq![1usize, 2, 1, 20, 4], "four_button"@, 6),
        CalculatorPart::FiveButton => (seq![1usize, 2, 1, 20, 5], "five_button"@, 7),
        CalculatorPart::SixButton => (seq![1usize, 2, 1, 20, 6], "six_button"@, 8),
        CalculatorPart::SevenButton => (seq![1usize, 2, 1, 20, 7], "seven_button"@, 9),
        CalculatorPart::EightButton => (seq![1usize, 2, 1, 20, 8], "eight_button"@, 10),
        CalculatorPart::NineButton => (seq![1usize, 2, 1, 20, 9], "nine_button"@, 11),
        CalculatorPart::EqualsButton => (seq![1usize, 2, 1, 18, 4], "equals_button"@, 12),
        CalculatorPart::PlusButton => (seq![1usize, 2, 1, 18, 3], "plus_button"@, 13),
        CalculatorPart::MinusButton => (seq![1usize, 2, 1, 18, 2], "minus_button"@, 14),
        CalculatorPart::MultiplyByButton => (seq![1usize, 2, 1, 18, 1], "multiply_by_button"@, 15),
        CalculatorPart::DivideByButton => (seq![1usize, 2, 1, 18, 0], "divide_by_button"@, 16),
        CalculatorPart::PositiveNegativeButton => (seq![1usize, 2, 1, 19], "positive_negative_button"@, 17),
        CalculatorPart::LeftParenthesisButton => (seq![1usize, 2, 1, 15], "left_parenthesis_button"@, 18),
        CalculatorPart::RightParenthesisButton => (seq![1usize, 2, 1, 16], "right_parenthesis_button"@, 19),
        CalculatorPart::FactorialButton => (seq![1usize, 2, 1, 17], "factorial_button"@, 20),
        CalculatorPart::ReciprocalButton => (seq![1usize, 2, 1, 11], "reciprocal_button"@, 21),
        CalculatorPart::AbsoluteValueButton => (seq![1usize, 2, 1, 12], "absolute_value_button"@, 22),
        CalculatorPart::ExponentialButton => (seq![1usize, 2, 1, 13], "exponential_button"@, 23),
        CalculatorPart::ModuloButton => (seq![1usize, 2, 1, 14], "modulo_button"@, 24),
        CalculatorPart::DisplayControls => (seq![1usize, 2, 1, 9], "display_controls_namedcontainerautomationpeer"@, 25),
        CalculatorPart::ClearButton => (seq![1usize, 2, 1, 9, 0], "clear_button"@, 26),
        CalculatorPart::EulersNumberButton => (seq![1usize, 2, 1, 8], "eulers_number_button"@, 27),
        CalculatorPart::PiButton => (seq![1usize, 2, 1, 7], "pi_button"@, 28),
        CalculatorPart::InverseFunctionToggleButton => (seq![1usize, 2, 1, 6], "inverse_function_togglebutton"@, 29),
        CalculatorPart::ScientificFunctions => (seq![1usize, 2, 1, 10], "scientific_functions_namedcontainerautomationpeer"@, 30),
        CalculatorPart::SquareRootButton => (seq![1usize, 2, 1, 10, 1], "square_root_button"@, 31),
        CalculatorPart::XToTheExponentButton => (seq![1usize, 2, 1, 10, 2], "x_to_the_exponent_button"@, 32),
        CalculatorPart::TenToTheExponentButton => (seq![1usize, 2, 1, 10, 3], "ten_to_the_exponent_button"@, 33),
        CalculatorPart::LogButton => (seq![1usize, 2, 1, 10, 4], "log_button"@, 34),
        CalculatorPart::NaturalLogButton => (seq![1usize, 2, 1, 10, 5], "natural_log_button"@, 35),
        CalculatorPart::MemoryControls => (seq![1usize, 2, 1, 4], "memory_controls_namedcontainerautomationpeer"@, 36),
        CalculatorPart::MemoryRecallButton => (seq![1usize, 2, 1, 4, 1], "memory_recall_button"@, 37),
        CalculatorPart::MemoryAddButton => (seq![1usize, 2, 1, 4, 2], "memory_add_button"@, 38),
        CalculatorPart::MemorySubtractButton => (seq![1usize, 2, 1, 4, 3], "memory_subtract_button"@, 39),
        CalculatorPart::MemoryStoreButton => (seq![1usize, 2, 1, 4, 4], "memory_store_button"@, 40),
        CalculatorPart::OpenMemoryFlyoutButton => (seq![1usize, 2, 1, 4, 5], "open_memory_flyout_button"@, 41),
        CalculatorPart::DegreesToggleButton => (seq![1usize, 2, 1, 3, 0], "degrees_toggle_button"@, 42),
        CalculatorPart::ScientificNotationToggleButton => (seq![1usize, 2, 1, 3, 1], "scientific_notation_togglebutton"@, 43),
    }
}

/// The child positions that lead from the calculator window to `p`.
pub open spec fn part_path(p: CalculatorPart) -> Seq<usize> {
    part_entry(p).0
}

/// The name of the snapshot field that holds `p`.
pub open spec fn part_label(p: CalculatorPart) -> Seq<char> {
    part_entry(p).1
}

/// The position of `p` in reading order.
pub open spec fn part_index(p: CalculatorPart) -> int {
    part_entry(p).2
}

/// The parts of the calculator window, in the order in which they are read.
pub open spec fn part_order() -> Seq<CalculatorPart> {
    seq![
        CalculatorPart::Expression,
        CalculatorPart::Display,
        CalculatorPart::ZeroButton,
        CalculatorPart::OneButton,
        CalculatorPart::TwoButton,
        CalculatorPart::ThreeButton,
        CalculatorPart::FourButton,
        CalculatorPart::FiveButton,
        CalculatorPart::SixButton,
        CalculatorPart::SevenButton,
        CalculatorPart::EightButton,
        CalculatorPart::NineButton,
        CalculatorPart::EqualsButton,
        CalculatorPart::PlusButton,
        CalculatorPart::MinusButton,
        CalculatorPart::MultiplyByButton,
        CalculatorPart::DivideByButton,
        CalculatorPart::PositiveNegativeButton,
        CalculatorPart::LeftParenthesisButton,
        CalculatorPart::RightParenthesisButton,
        CalculatorPart::FactorialButton,
        CalculatorPart::ReciprocalButton,
        CalculatorPart::AbsoluteValueButton,
        CalculatorPart::ExponentialButton,
        CalculatorPart::ModuloButton,
        CalculatorPart::DisplayControls,
        CalculatorPart::ClearButton,
        CalculatorPart::EulersNumberButton,
        CalculatorPart::PiButton,
        CalculatorPart::InverseFunctionToggleButton,
        CalculatorPart::ScientificFunctions,
        CalculatorPart::SquareRootButton,
        CalculatorPart::XToTheExponentButton,
        CalculatorPart::TenToTheExponentButton,
        CalculatorPart::LogButton,
        CalculatorPart::NaturalLogButton,
        CalculatorPart::MemoryControls,
        CalculatorPart::MemoryRecallButton,
        CalculatorPart::MemoryAddButton,
        CalculatorPart::MemorySubtractButton,
        CalculatorPart::MemoryStoreButton,
        CalculatorPart::OpenMemoryFlyoutButton,
        CalculatorPart::DegreesToggleButton,
        CalculatorPart::ScientificNotationToggleButton,
    ]
}

/// Law: each part is read once, at its position in reading order.
pub proof fn lemma_part_index(p: CalculatorPart)
    ensures
        0 <= part_index(p) < CALCULATOR_PART_COUNT,
        part_order().len() == CALCULATOR_PART_COUNT,
        part_order()[part_index(p)] == p,
{
}

impl CalculatorPart {
    /// The child positions that lead to this part, the name of the snapshot field that
    /// holds it, and its position in reading order.
    pub fn entry(&self) -> (r: (Vec<usize>, &'static str, usize))
        ensures
            r.0@ == part_path(*self),
            r.1@ == part_label(*self),
            r.2 == part_index(*self),
    {
        match self {
            CalculatorPart::Expression => (vec![1usize, 2, 1, 0], "expression", 0),
            CalculatorPart::Display => (vec![1usize, 2, 1, 1, 0], "display", 1),
            CalculatorPart::ZeroButton => (vec![1usize, 2, 1, 20, 0], "zero_button", 2),
            CalculatorPart::OneButton => (vec![1usize, 2, 1, 20, 1], "one_button", 3),
            CalculatorPart::TwoButton => (vec![1usize, 2, 1, 20, 2], "two_button", 4),
            CalculatorPart::ThreeButton => (vec![1usize, 2, 1, 20, 3], "three_button", 5),
            CalculatorPart::FourButton => (vec![1usize, 2, 1, 20, 4], "four_button", 6),
            CalculatorPart::FiveButton => (vec![1usize, 2, 1, 20, 5], "five_button", 7),
            CalculatorPart::SixButton => (vec![1usize, 2, 1, 20, 6], "six_button", 8),
            CalculatorPart::SevenButton => (vec![1usize, 2, 1, 20, 7], "seven_button", 9),
            CalculatorPart::EightButton => (vec![1usize, 2, 1, 20, 8], "eight_button", 10),
            CalculatorPart::NineButton => (vec![1usize, 2, 1, 20, 9], "nine_button", 11),
            CalculatorPart::EqualsButton => (vec![1usize, 2, 1, 18, 4], "equals_button", 12),
            CalculatorPart::PlusButton => (vec![1usize, 2, 1, 18, 3], "plus_button", 13),
            CalculatorPart::MinusButton => (vec![1usize, 2, 1, 18, 2], "minus_button", 14),
            CalculatorPart::MultiplyByButton => (vec![1usize, 2, 1, 18, 1], "multiply_by_button", 15),
            CalculatorPart::DivideByButton => (vec![1usize, 2, 1, 18, 0], "divide_by_button", 16),
            CalculatorPart::PositiveNegativeButton => (vec![1usize, 2, 1, 19], "positive_negative_button", 17),
            CalculatorPart::LeftParenthesisButton => (vec![1usize, 2, 1, 15], "left_parenthesis_button", 18),
            CalculatorPart::RightParenthesisButton => (vec![1usize, 2, 1, 16], "right_parenthesis_button", 19),
            CalculatorPart::FactorialButton => (vec![1usize, 2, 1, 17], "factorial_button", 20),
            CalculatorPart::ReciprocalButton => (vec![1usize, 2, 1, 11], "reciprocal_button", 21),
            CalculatorPart::AbsoluteValueButton => (vec![1usize, 2, 1, 12], "absolute_value_button", 22),
            CalculatorPart::ExponentialButton => (vec![1usize, 2, 1, 13], "exponential_button", 23),
            CalculatorPart::ModuloButton => (vec![1usize, 2, 1, 14], "modulo_button", 24),
            CalculatorPart::DisplayControls => (vec![1usize, 2, 1, 9], "display_controls_namedcontainerautomationpeer", 25),
            CalculatorPart::ClearButton => (vec![1usize, 2, 1, 9, 0], "clear_button", 26),
            CalculatorPart::EulersNumberButton => (vec![1usize, 2, 1, 8], "eulers_number_button", 27),
            CalculatorPart::PiButton => (vec![1usize, 2, 1, 7], "pi_button", 28),
            CalculatorPart::InverseFunctionToggleButton => (vec![1usize, 2, 1, 6], "inverse_function_togglebutton", 29),
            CalculatorPart::ScientificFunctions => (vec![1usize, 2, 1, 10], "scientific_functions_namedcontainerautomationpeer", 30),
            CalculatorPart::SquareRootButton => (vec![1usize, 2, 1, 10, 1], "square_root_button", 31),
            CalculatorPart::XToTheExponentButton => (vec![1usize, 2, 1, 10, 2], "x_to_the_exponent_button", 32),
            CalculatorPart::TenToTheExponentButton => (vec![1usize, 2, 1, 10, 3], "ten_to_the_exponent_button", 33),
            CalculatorPart::LogButton => (vec![1usize, 2, 1, 10, 4], "log_button", 34),
            CalculatorPart::NaturalLogButton => (vec![1usize, 2, 1, 10, 5], "natural_log_button", 35),
            CalculatorPart::MemoryControls => (vec![1usize, 2, 1, 4], "memory_controls_namedcontainerautomationpeer", 36),
            CalculatorPart::MemoryRecallButton => (vec![1usize, 2, 1, 4, 1], "memory_recall_button", 37),
            CalculatorPart::MemoryAddButton => (vec![1usize, 2, 1, 4, 2], "memory_add_button", 38),
            CalculatorPart::MemorySubtractButton => (vec![1usize, 2, 1, 4, 3], "memory_subtract_button", 39),
            CalculatorPart::MemoryStoreButton => (vec![1usize, 2, 1, 4, 4], "memory_store_button", 40),
            CalculatorPart::OpenMemoryFlyoutButton => (vec![1usize, 2, 1, 4, 5], "open_memory_flyout_button", 41),
            CalculatorPart::DegreesToggleButton => (vec![1usize, 2, 1, 3, 0], "degrees_toggle_button", 42),
            CalculatorPart::ScientificNotationToggleButton => (vec![1usize, 2, 1, 3, 1], "scientific_notation_togglebutton", 43),
        }
    }

    /// The child positions that lead from the calculator window to this part.
    pub fn drill_path(&self) -> (r: Vec<usize>)
        ensures
            r@ == part_path(*self),
    {
        self.entry().0
    }

    /// The name of the snapshot field that holds this part.
    pub fn label(&self) -> (r: &'static str)
        ensures
            r@ == part_label(*self),
    {
        self.entry().1
    }

    /// The position of this part in reading order.
    pub fn index(&self) -> (r: usize)
        ensures
            r == part_index(*self),
    {
        self.entry().2
    }

    /// The part read at position `i`, in reading order.
    pub fn at(i: usize) -> (r: CalculatorPart)
        requires
            i < CALCULATOR_PART_COUNT,
        ensures
            r == part_order()[i as int],
    {
        match i {
            0 => CalculatorPart::Expression,
            1 => CalculatorPart::Display,
            2 => CalculatorPart::ZeroButton,
            3 => CalculatorPart::OneButton,
            4 => CalculatorPart::TwoButton,
            5 => CalculatorPart::ThreeButton,
            6 => CalculatorPart::FourButton,
            7 => CalculatorPart::FiveButton,
            8 => CalculatorPart::SixButton,
            9 => CalculatorPart::SevenButton,
            10 => CalculatorPart::EightButton,
            11 => CalculatorPart::NineButton,
            12 => CalculatorPart::EqualsButton,
            13 => CalculatorPart::PlusButton,
            14 => CalculatorPart::MinusButton,
            15 => CalculatorPart::MultiplyByButton,
            16 => CalculatorPart::DivideByButton,
            17 => CalculatorPart::PositiveNegativeButton,
            18 => CalculatorPart::LeftParenthesisButton,
            19 => CalculatorPart::RightParenthesisButton,
            20 => CalculatorPart::FactorialButton,
            21 => CalculatorPart::ReciprocalButton,
            22 => CalculatorPart::AbsoluteValueButton,
            23 => CalculatorPart::ExponentialButton,
            24 => CalculatorPart::ModuloButton,
            25 => CalculatorPart::DisplayControls,
            26 => CalculatorPart::ClearButton,
            27 => CalculatorPart::EulersNumberButton,
            28 => CalculatorPart::PiButton,
            29 => CalculatorPart::InverseFunctionToggleButton,
            30 => CalculatorPart::ScientificFunctions,
            31 => CalculatorPart::SquareRootButton,
            32 => CalculatorPart::XToTheExponentButton,
            33 => CalculatorPart::TenToTheExponentButton,
            34 => CalculatorPart::LogButton,
            35 => CalculatorPart::NaturalLogButton,
            36 => CalculatorPart::MemoryControls,
            37 => CalculatorPart::MemoryRecallButton,
            38 => CalculatorPart::MemoryAddButton,
            39 => CalculatorPart::MemorySubtractButton,
            40 => CalculatorPart::MemoryStoreButton,
            41 => CalculatorPart::OpenMemoryFlyoutButton,
            42 => CalculatorPart::DegreesToggleButton,
            _ => CalculatorPart::ScientificNotationToggleButton,
        }
    }
}

/// What was read of each part of the calculator window, in reading order.
#[derive(Debug)]
pub struct CalculatorSnapshot {
    elements: Vec<ElementInfo>,
}

impl CalculatorSnapshot {
    /// What was read of each part, in reading order.
    pub closed spec fn elements(self) -> Seq<ElementInfo> {
        self.elements@
    }

    /// Every snapshot holds one element per part.
    #[verifier::type_invariant]
    spec fn holds_every_part(self) -> bool {
        self.elements@.len() == CALCULATOR_PART_COUNT
    }

    /// What was read of the part `p`.
    pub fn part(&self, p: CalculatorPart) -> (r: &ElementInfo)
        ensures
            self.elements().len() == CALCULATOR_PART_COUNT,
            *r == self.elements()[part_index(p)],
    {
        proof {
            use_type_invariant(self);
        }
        let i = p.index();
        &self.elements[i]
    }
}

/// The calculator window's parts read so far, in reading order.
pub struct CalculatorResolver {
    found: Vec<ElementInfo>,
}

impl CalculatorResolver {
    /// What was read so far, in reading order.
    pub closed spec fn found(self) -> Seq<ElementInfo> {
        self.found@
    }

    /// No more parts are read than there are.
    #[verifier::type_invariant]
    spec fn within_parts(self) -> bool {
        self.found@.len() <= CALCULATOR_PART_COUNT
    }

    /// Nothing read yet.
    pub fn new() -> (r: CalculatorResolver)
        ensures
            r.found().len() == 0,
    {
        CalculatorResolver { found: Vec::new() }
    }

    /// The part to read next, in reading order, or `None` once all parts are read.
    pub fn next_part(&self) -> (r: Option<CalculatorPart>)
        ensures
            self.found().len() <= CALCULATOR_PART_COUNT,
            self.found().len() < CALCULATOR_PART_COUNT ==> r == Some(
                part_order()[self.found().len() as int],
            ),
            self.found().len() == CALCULATOR_PART_COUNT ==> r is None,
    {
        proof {
            use_type_invariant(self);
        }
        let n = self.found.len();
        if n < CALCULATOR_PART_COUNT {
            Some(CalculatorPart::at(n))
        } else {
            None
        }
    }

    /// Takes in what was read of the part to read next.
    pub fn add(&mut self, info: ElementInfo)
        requires
            old(self).found().len() < CALCULATOR_PART_COUNT,
        ensures
            final(self).found() == old(self).found().push(info),
    {
        proof {
            use_type_invariant(&*self);
        }
        let mut found: Vec<ElementInfo> = Vec::new();
        std::mem::swap(&mut found, &mut self.found);
        found.push(info);
        std::mem::swap(&mut found, &mut self.found);
    }

    /// The snapshot, once every part is read.
    pub fn finish(self) -> (r: Option<CalculatorSnapshot>)
        ensures
            self.found().len() == CALCULATOR_PART_COUNT ==> (r matches Some(snap)
                && snap.elements() == self.found()),
            self.found().len() != CALCULATOR_PART_COUNT ==> r is None,
    {
        if self.found.len() == CALCULATOR_PART_COUNT {
            Some(CalculatorSnapshot { elements: self.found })
        } else {
            None
        }
    }
}

/// What resolving the calculator gives from what was read of its parts: all of them, in
/// reading order, once every part is read; nothing otherwise.
pub open spec fn calculator_result(found: Seq<ElementInfo>) -> Option<Seq<ElementInfo>> {
    if found.len() == CALCULATOR_PART_COUNT {
        Some(found)
    } else {
        None
    }
}

/// Whether `r` is what resolving the calculator gives from `found`.
pub open spec fn resolved_as(found: Seq<ElementInfo>, r: Option<CalculatorSnapshot>) -> bool {
    match r {
        Some(snap) => calculator_result(found) == Some(snap.elements()),
        None => calculator_result(found) is None,
    }
}

/// The snapshot of the calculator window from what was read of its parts. Whether the
/// window has the focus plays no part in it.
pub fn resolve_calculator(resolver: CalculatorResolver, _focused: bool) -> (r: Option<
    CalculatorSnapshot,
>)
    ensures
        resolved_as(resolver.found(), r),
{
    resolver.finish()
}

/// Law: the calculator's snapshot does not depend on the focus: two results resolved
/// from the same reads (the window focused for one and not for the other) are both
/// snapshots of the same elements, or both nothing.
pub proof fn lemma_focus_plays_no_part(
    found: Seq<ElementInfo>,
    focused_result: Option<CalculatorSnapshot>,
    unfocused_result: Option<CalculatorSnapshot>,
)
    requires
        resolved_as(found, focused_result),
        resolved_as(found, unfocused_result),
    ensures
        focused_result is Some <==> unfocused_result is Some,
        focused_result matches Some(a) ==> (unfocused_result matches Some(b) && a.elements()
            == b.elements()),
{
}

/// The part at the child positions whose length, fourth and fifth entries (0 where
/// there is none) are `len`, `a` and `b`.
spec fn part_by_positions(len: nat, a: usize, b: usize) -> Option<CalculatorPart> {
    if len == 4 && a == 0 && b == 0 {
        Some(CalculatorPart::Expression)
    } else if len == 5 && a == 1 && b == 0 {
        Some(CalculatorPart::Display)
    } else if len == 5 && a == 20 && b == 0 {
        Some(CalculatorPart::ZeroButton)
    } else if len == 5 && a == 20 && b == 1 {
        Some(CalculatorPart::OneButton)
    } else if len == 5 && a == 20 && b == 2 {
        Some(CalculatorPart::TwoButton)
    } else if len == 5 && a == 20 && b == 3 {
        Some(CalculatorPart::ThreeButton)
    } else if len == 5 && a == 20 && b == 4 {
        Some(CalculatorPart::FourButton)
    } else if len == 5 && a == 20 && b == 5 {
        Some(CalculatorPart::FiveButton)
    } else if len == 5 && a == 20 && b == 6 {
        Some(CalculatorPart::SixButton)
    } else if len == 5 && a == 20 && b == 7 {
        Some(CalculatorPart::SevenButton)
    } else if len == 5 && a == 20 && b == 8 {
        Some(CalculatorPart::EightButton)
    } else if len == 5 && a == 20 && b == 9 {
        Some(CalculatorPart::NineButton)
    } else if len == 5 && a == 18 && b == 4 {
        Some(CalculatorPart::EqualsButton)
    } else if len == 5 && a == 18 && b == 3 {
        Some(CalculatorPart::PlusButton)
    } else if len == 5 && a == 18 && b == 2 {
        Some(CalculatorPart::MinusButton)
    } else if len == 5 && a == 18 && b == 1 {
        Some(CalculatorPart::MultiplyByButton)
    } else if len == 5 && a == 18 && b == 0 {
        Some(CalculatorPart::DivideByButton)
    } else if len == 4 && a == 19 && b == 0 {
        Some(CalculatorPart::PositiveNegativeButton)
    } else if len == 4 && a == 15 && b == 0 {
        Some(CalculatorPart::LeftParenthesisButton)
    } else if len == 4 && a == 16 && b == 0 {
        Some(CalculatorPart::RightParenthesisButton)
    } else if len == 4 && a == 17 && b == 0 {
        Some(CalculatorPart::FactorialButton)
    } else if len == 4 && a == 11 && b == 0 {
        Some(CalculatorPart::ReciprocalButton)
    } else if len == 4 && a == 12 && b == 0 {
        Some(CalculatorPart::AbsoluteValueButton)
    } else if len == 4 && a == 13 && b == 0 {
        Some(CalculatorPart::ExponentialButton)
    } else if len == 4 && a == 14 && b == 0 {
        Some(CalculatorPart::ModuloButton)
    } else if len == 4 && a == 9 && b == 0 {
        Some(CalculatorPart::DisplayControls)
    } else if len == 5 && a == 9 && b == 0 {
        Some(CalculatorPart::ClearButton)
    } else if len == 4 && a == 8 && b == 0 {
        Some(CalculatorPart::EulersNumberButton)
    } else if len == 4 && a == 7 && b == 0 {
        Some(CalculatorPart::PiButton)
    } else if len == 4 && a == 6 && b == 0 {
        Some(CalculatorPart::InverseFunctionToggleButton)
    } else if len == 4 && a == 10 && b == 0 {
        Some(CalculatorPart::ScientificFunctions)
    } else if len == 5 && a == 10 && b == 1 {
        Some(CalculatorPart::SquareRootButton)
    } else if len == 5 && a == 10 && b == 2 {
        Some(CalculatorPart::XToTheExponentButton)
    } else if len == 5 && a == 10 && b == 3 {
        Some(CalculatorPart::TenToTheExponentButton)
    } else if len == 5 && a == 10 && b == 4 {
        Some(CalculatorPart::LogButton)
    } else if len == 5 && a == 10 && b == 5 {
        Some(CalculatorPart::NaturalLogButton)
    } else if len == 4 && a == 4 && b == 0 {
        Some(CalculatorPart::MemoryControls)
    } else if len == 5 && a == 4 && b == 1 {
        Some(CalculatorPart::MemoryRecallButton)
    } else if len == 5 && a == 4 && b == 2 {
        Some(CalculatorPart::MemoryAddButton)
    } else if len == 5 && a == 4 && b == 3 {
        Some(CalculatorPart::MemorySubtractButton)
    } else if len == 5 && a == 4 && b == 4 {
        Some(CalculatorPart::MemoryStoreButton)
    } else if len == 5 && a == 4 && b == 5 {
        Some(CalculatorPart::OpenMemoryFlyoutButton)
    } else if len == 5 && a == 3 && b == 0 {
        Some(CalculatorPart::DegreesToggleButton)
    } else if len == 5 && a == 3 && b == 1 {
        Some(CalculatorPart::ScientificNotationToggleButton)
    } else {
        None
    }
}

proof fn lemma_part_by_positions(p: CalculatorPart)
    ensures
        part_path(p).len() >= 4,
        part_by_positions(
            part_path(p).len(),
            part_path(p)[3],
            if part_path(p).len() > 4 {
                part_path(p)[4]
            } else {
                0usize
            },
        ) == Some(p),
{
}

/// Law: the child positions of the calculator's parts all start from its display
/// region (`1, 2, 1`), and no two parts share their positions: each part is read from
/// an element of its own.
pub proof fn lemma_part_paths_distinct()
    ensures
        forall|p: CalculatorPart| #[trigger] part_path(p).subrange(0, 3) == seq![1usize, 2, 1],
        forall|p: CalculatorPart, q: CalculatorPart|
            #[trigger] part_path(p) == #[trigger] part_path(q) ==> p == q,
{
    assert forall|p: CalculatorPart| #[trigger] part_path(p).subrange(0, 3) == seq![
        1usize,
        2,
        1,
    ] by {
        lemma_part_by_positions(p);
        assert(part_path(p).subrange(0, 3) =~= seq![1usize, 2, 1]);
    }
    assert forall|p: CalculatorPart, q: CalculatorPart|
        #[trigger] part_path(p) == #[trigger] part_path(q) implies p == q by {
        lemma_part_by_positions(p);
        lemma_part_by_positions(q);
    }
}

/// Law: each part is read at the child positions where the calculator window shows it.
pub proof fn lemma_part_paths()
    ensures
        part_path(CalculatorPart::Expression) == seq![1usize, 2, 1, 0],
        part_path(CalculatorPart::Display) == seq![1usize, 2, 1, 1, 0],
        part_path(CalculatorPart::ZeroButton) == seq![1usize, 2, 1, 20, 0],
        part_path(CalculatorPart::OneButton) == seq![1usize, 2, 1, 20, 1],
        part_path(CalculatorPart::TwoButton) == seq![1usize, 2, 1, 20, 2],
        part_path(CalculatorPart::ThreeButton) == seq![1usize, 2, 1, 20, 3],
        part_path(CalculatorPart::FourButton) == seq![1usize, 2, 1, 20, 4],
        part_path(CalculatorPart::FiveButton) == seq![1usize, 2, 1, 20, 5],
        part_path(CalculatorPart::SixButton) == seq![1usize, 2, 1, 20, 6],
        part_path(CalculatorPart::SevenButton) == seq![1usize, 2, 1, 20, 7],
        part_path(CalculatorPart::EightButton) == seq![1usize, 2, 1, 20, 8],
        part_path(CalculatorPart::NineButton) == seq![1usize, 2, 1, 20, 9],
        part_path(CalculatorPart::EqualsButton) == seq![1usize, 2, 1, 18, 4],
        part_path(CalculatorPart::PlusButton) == seq![1usize, 2, 1, 18, 3],
        part_path(CalculatorPart::MinusButton) == seq![1usize, 2, 1, 18, 2],
        part_path(CalculatorPart::MultiplyByButton) == seq![1usize, 2, 1, 18, 1],
        part_path(CalculatorPart::DivideByButton) == seq![1usize, 2, 1, 18, 0],
        part_path(CalculatorPart::PositiveNegativeButton) == seq![1usize, 2, 1, 19],
        part_path(CalculatorPart::LeftParenthesisButton) == seq![1usize, 2, 1, 15],
        part_path(CalculatorPart::RightParenthesisButton) == seq![1usize, 2, 1, 16],
        part_path(CalculatorPart::FactorialButton) == seq![1usize, 2, 1, 17],
        part_path(CalculatorPart::ReciprocalButton) == seq![1usize, 2, 1, 11],
        part_path(CalculatorPart::AbsoluteValueButton) == seq![1usize, 2, 1, 12],
        part_path(CalculatorPart::ExponentialButton) == seq![1usize, 2, 1, 13],
        part_path(CalculatorPart::ModuloButton) == seq![1usize, 2, 1, 14],
        part_path(CalculatorPart::DisplayControls) == seq![1usize, 2, 1, 9],
        part_path(CalculatorPart::ClearButton) == seq![1usize, 2, 1, 9, 0],
        part_path(CalculatorPart::EulersNumberButton) == seq![1usize, 2, 1, 8],
        part_path(CalculatorPart::PiButton) == seq![1usize, 2, 1, 7],
        part_path(CalculatorPart::InverseFunctionToggleButton) == seq![1usize, 2, 1, 6],
        part_path(CalculatorPart::ScientificFunctions) == seq![1usize, 2, 1, 10],
        part_path(CalculatorPart::SquareRootButton) == seq![1usize, 2, 1, 10, 1],
        part_path(CalculatorPart::XToTheExponentButton) == seq![1usize, 2, 1, 10, 2],
        part_path(CalculatorPart::TenToTheExponentButton) == seq![1usize, 2, 1, 10, 3],
        part_path(CalculatorPart::LogButton) == seq![1usize, 2, 1, 10, 4],
        part_path(CalculatorPart::NaturalLogButton) == seq![1usize, 2, 1, 10, 5],
        part_path(CalculatorPart::MemoryControls) == seq![1usize, 2, 1, 4],
        part_path(CalculatorPart::MemoryRecallButton) == seq![1usize, 2, 1, 4, 1],
        part_path(CalculatorPart::MemoryAddButton) == seq![1usize, 2, 1, 4, 2],
        part_path(CalculatorPart::MemorySubtractButton) == seq![1usize, 2, 1, 4, 3],
        part_path(CalculatorPart::MemoryStoreButton) == seq![1usize, 2, 1, 4, 4],
        part_path(CalculatorPart::OpenMemoryFlyoutButton) == seq![1usize, 2, 1, 4, 5],
        part_path(CalculatorPart::DegreesToggleButton) == seq![1usize, 2, 1, 3, 0],
        part_path(CalculatorPart::ScientificNotationToggleButton) == seq![1usize, 2, 1, 3, 1],
{
}

} // verus!
