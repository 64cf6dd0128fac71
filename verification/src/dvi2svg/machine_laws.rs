//! What holds of the device whatever file it reads: stated over the model of
//! [`crate::dvi2svg::svgmachine`] and proved from its definitions.

use crate::bytes::has_prefix;
use crate::dvi2svg::instruction::InstructionView;
use crate::dvi2svg::machine::{DviError, SpecialHandler};
use crate::dvi2svg::svgmachine::{default_paper_side, FontTable, MachineView};
use crate::dvi2svg::utils::{index_of, is_numeral};
use vstd::prelude::*;
use vstd::string::StringSliceAdditionalSpecFns;

verus! {

impl MachineView {
    /// Nothing has been drawn before the preamble was seen.
    pub open spec fn drawn_with_scale(self) -> bool {
        self.content.len() > 0 ==> self.preamble is Some
    }

    /// `later` has drawn what `self` has drawn, and maybe more behind it.
    pub open spec fn content_kept_by(self, later: MachineView) -> bool {
        &&& self.content.len() <= later.content.len()
        &&& forall|k: int|
            0 <= k < self.content.len() ==> #[trigger] later.content[k] == self.content[k]
    }

    /// Every text and every rule that `later` has drawn and `self` has not is
    /// in the colour of `self`, which is the colour of `later` if there is
    /// such text or such a rule.
    pub open spec fn colors_kept_by(self, later: MachineView) -> bool {
        forall|k: int|
            self.content.len() <= k < later.content.len() && (
            #[trigger] later.content[k]).color() is Some ==> later.content[k].color() == Some(
                self.color,
            ) && later.color == self.color
    }

    /// Whatever `later` has drawn and `self` has not is neither text nor a
    /// rule.
    pub open spec fn only_markup_added_by(self, later: MachineView) -> bool {
        forall|k: int|
            self.content.len() <= k < later.content.len() ==> (
            #[trigger] later.content[k]).color() is None
    }

    /// What takes a device from `self` to `later` is a step of a device that
    /// reads a file: what was drawn is kept; what is added was drawn with the
    /// preamble seen, text and rules in the current colour; and a preamble
    /// that was seen is not lost.
    pub open spec fn steps_to(self, later: MachineView) -> bool {
        &&& self.content_kept_by(later)
        &&& self.colors_kept_by(later)
        &&& later.content.len() > self.content.len() ==> self.preamble is Some
        &&& self.preamble is Some ==> later.preamble is Some
    }

    /// A step that draws nothing but markup and leaves the preamble as it is.
    pub open spec fn steps_quietly_to(self, later: MachineView) -> bool {
        &&& self.content_kept_by(later)
        &&& self.only_markup_added_by(later)
        &&& later.content.len() > self.content.len() ==> self.preamble is Some
        &&& self.preamble == later.preamble
    }
}

/// A device that has read nothing has drawn nothing, and its paper is a
/// hundred points wide and high. So is the paper of every device to which the
/// file has given no paper size.
pub proof fn law_paper_is_100_by_default(machine: MachineView)
    ensures
        MachineView::initial().content.len() == 0,
        MachineView::initial().paper_size() == (default_paper_side(), default_paper_side()),
        machine.paper is None ==> machine.paper_size() == (
            default_paper_side(),
            default_paper_side(),
        ),
        default_paper_side() == seq![49u8, 48u8, 48u8],
        is_numeral(default_paper_side()),
{
    let side = default_paper_side();
    assert(index_of(side, 46, 0) == 3) by {
        reveal_with_fuel(index_of, 4);
    }
    assert(side.subrange(0, 3) =~= side);
}

/// A page that ends without failure leaves no colour and no position on the
/// stacks: both are empty after it. It ends without failure if and only if
/// both are empty before it and the markup that is waiting can be drawn.
pub proof fn law_page_ends_balanced(machine: MachineView)
    ensures
        machine.page_ended().1 is Ok ==> machine.page_ended().0.color_stack.len() == 0
            && machine.page_ended().0.position_stack.len() == 0,
        machine.page_ended().1 is Ok <==> machine.position_stack.len() == 0
            && machine.color_stack.len() == 0 && (machine.svg_buffer.len() == 0
            || machine.preamble is Some),
{
}

/// Text and rules are drawn only once the preamble has been seen: without it
/// both fail and draw nothing, and with it the preamble stays.
pub proof fn law_drawing_needs_preamble(
    machine: MachineView,
    codes: Seq<u32>,
    table: FontTable,
    height: i32,
    width: i32,
)
    ensures
        machine.preamble is None ==> machine.text_put(codes, table) == (
            machine,
            Err::<i32, DviError>(DviError::NoPreamble),
        ),
        machine.preamble is None ==> machine.rule_put(height, width) == (
            machine,
            Err::<(), DviError>(DviError::NoPreamble),
        ),
        machine.text_put(codes, table).1 is Ok ==> machine.preamble is Some,
        machine.rule_put(height, width).1 is Ok ==> machine.preamble is Some,
        machine.steps_to(machine.text_put(codes, table).0),
        machine.steps_to(machine.rule_put(height, width).0),
{
}

/// What one handler does with a special is a quiet step.
proof fn lemma_special(machine: MachineView, handler: SpecialHandler, command: Seq<u8>)
    ensures
        machine.steps_quietly_to(machine.special(handler, command).0),
{
}

/// Quiet steps one after the other are a quiet step.
proof fn lemma_quiet_steps(first: MachineView, second: MachineView, third: MachineView)
    requires
        first.steps_quietly_to(second),
        second.steps_quietly_to(third),
    ensures
        first.steps_quietly_to(third),
{
    assert forall|k: int| 0 <= k < first.content.len() implies #[trigger] third.content[k]
        == first.content[k] by {
        assert(second.content[k] == first.content[k]);
    }
    assert forall|k: int| first.content.len() <= k < third.content.len() implies (
    #[trigger] third.content[k]).color() is None by {
        if k < second.content.len() {
            assert(third.content[k] == second.content[k]);
            assert(second.content[k].color() is None);
        }
    }
}

/// What the handlers do with a special is a quiet step: they draw nothing but
/// markup, and only once the preamble has been seen.
pub proof fn law_specials_draw_markup_only(
    machine: MachineView,
    handlers: Seq<SpecialHandler>,
    command: Seq<u8>,
)
    ensures
        machine.steps_quietly_to(machine.special_handled(handlers, command).0),
    decreases handlers.len(),
{
    if handlers.len() > 0 {
        let (next, result) = machine.special(handlers[0], command);
        lemma_special(machine, handlers[0], command);
        if result == Ok::<bool, DviError>(false) {
            law_specials_draw_markup_only(next, handlers.skip(1), command);
            lemma_quiet_steps(machine, next, next.special_handled(handlers.skip(1), command).0);
        }
    }
}

/// A quiet step is a step.
proof fn lemma_quiet_is_step(before: MachineView, after: MachineView)
    requires
        before.steps_quietly_to(after),
    ensures
        before.steps_to(after),
{
}

/// Setting and putting a character or a rule is a step.
proof fn lemma_drawing_steps(
    machine: MachineView,
    code: u32,
    table: FontTable,
    height: i32,
    width: i32,
    moving: bool,
)
    ensures
        machine.steps_to(machine.char_drawn(code, table, moving).0),
        machine.steps_to(machine.rule_drawn(height, width, moving).0),
{
    law_drawing_needs_preamble(machine, seq![code], table, height, width);
    let text = machine.text_put(seq![code], table).0;
    let with_char = machine.char_drawn(code, table, moving).0;
    assert(with_char.content == text.content || with_char.content == machine.content);
    let rule = machine.rule_put(height, width).0;
    let with_rule = machine.rule_drawn(height, width, moving).0;
    assert(with_rule.content == rule.content);
}

/// Every instruction is a step of the device. So, whatever a file holds:
/// what was drawn stays as it was drawn; text and rules are drawn only once
/// the preamble has been seen, which is never lost again; and each text and
/// each rule is in the colour that is current when it is drawn, which the
/// instruction that draws it does not change.
pub proof fn law_instructions_are_steps(
    machine: MachineView,
    instruction: InstructionView,
    table: FontTable,
    handlers: Seq<SpecialHandler>,
)
    ensures
        machine.steps_to(machine.executed(instruction, table, handlers).0),
{
    match instruction {
        InstructionView::SetChar(code) => {
            lemma_drawing_steps(machine, code, table, 0, 0, true);
        },
        InstructionView::PutChar(code) => {
            lemma_drawing_steps(machine, code, table, 0, 0, false);
        },
        InstructionView::SetRule(height, width) => {
            lemma_drawing_steps(machine, 0, table, height, width, true);
        },
        InstructionView::PutRule(height, width) => {
            lemma_drawing_steps(machine, 0, table, height, width, false);
        },
        InstructionView::Xxx(command) => {
            law_specials_draw_markup_only(machine, handlers, command);
            lemma_quiet_is_step(machine, machine.special_handled(handlers, command).0);
        },
        InstructionView::Eop => {
            assert(machine.steps_quietly_to(machine.page_ended().0));
        },
        _ => {},
    }
}

/// Nothing is drawn before the preamble has been seen, by a device that
/// reads a whole file from its start.
pub proof fn law_file_draws_with_scale(
    machine: MachineView,
    instructions: Seq<InstructionView>,
    table: FontTable,
    handlers: Seq<SpecialHandler>,
)
    requires
        machine.drawn_with_scale(),
    ensures
        machine.ran(instructions, table, handlers).0.drawn_with_scale(),
        MachineView::initial().drawn_with_scale(),
    decreases instructions.len(),
{
    if instructions.len() > 0 {
        law_instructions_are_steps(machine, instructions[0], table, handlers);
        let (next, result) = machine.executed(instructions[0], table, handlers);
        if result is Ok {
            law_file_draws_with_scale(next, instructions.skip(1), table, handlers);
        }
    }
}

/// A colour that is pushed and popped again is the colour that was current
/// before: what is drawn between the two is in the pushed colour, what is
/// drawn after them in the colour that was.
pub proof fn law_color_is_restored(machine: MachineView, push: Seq<u8>, pop: Seq<u8>)
    requires
        machine.special_color(push).0.color_stack.len() == machine.color_stack.len() + 1,
        has_prefix(pop, "color pop".spec_bytes()),
    ensures
        machine.special_color(push).0.special_color(pop).0.color == machine.color,
        machine.special_color(push).0.special_color(pop).0.color_stack == machine.color_stack,
        machine.special_color(push).0.special_color(pop).1 == Ok::<bool, DviError>(true),
{
    let pushed = machine.special_color(push).0;
    assert(pushed.color_stack == machine.color_stack.push(machine.color));
    assert(pushed.color_stack.drop_last() =~= machine.color_stack);
}

} // verus!
