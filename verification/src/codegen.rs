use vstd::prelude::*;

use crate::ast::ModuleItem;
use crate::ast::Program;
use crate::module::item_code_text;
use crate::module::item_ctrl;
use crate::module::item_main_text;
use crate::module::RustGenerator;

verus! {

/// A controller recognized during translation: the aggregate's name and
/// the route prefix its handlers share.
pub struct ControllerMetadata {
    pub struct_name: String,
    pub route_path: String,
}

/// One translated file: the generated text and the controllers it
/// declares.
pub struct GeneratedCode {
    pub code: String,
    pub controllers: Vec<ControllerMetadata>,
}

/// The code a whole file lowers to, item by item.
pub open spec fn items_code_text(items: Seq<ModuleItem>, is_index: bool) -> Seq<char>
    decreases items.len(),
{
    if items.len() == 0 {
        Seq::empty()
    } else {
        items_code_text(items.drop_last(), is_index) + item_code_text(items.last(), is_index)
    }
}

/// The entry body a whole file's loose statements lower to.
pub open spec fn items_main_text(items: Seq<ModuleItem>) -> Seq<char>
    decreases items.len(),
{
    if items.len() == 0 {
        Seq::empty()
    } else {
        items_main_text(items.drop_last()) + item_main_text(items.last())
    }
}

/// The controllers a whole file registers, in order.
pub open spec fn items_ctrls(items: Seq<ModuleItem>) -> Seq<(Seq<char>, Seq<char>)>
    decreases items.len(),
{
    if items.len() == 0 {
        Seq::empty()
    } else {
        items_ctrls(items.drop_last()) + (match item_ctrl(items.last()) {
            Option::Some(meta) => seq![meta],
            Option::None => Seq::empty(),
        })
    }
}

/// The whole output of one file: the lowered items and, for the entry
/// file, its loose statements wrapped into an entry function.
pub open spec fn program_code_text(p: Program, is_index: bool) -> Seq<char> {
    let code = items_code_text(p.items@, is_index);
    let main = items_main_text(p.items@);
    if main.len() > 0 && is_index {
        code + "\npub fn main() {\n"@ + main + "}\n"@
    } else {
        code
    }
}

/// Translates one parsed file. The output is a function of the input
/// alone: translating the same tree twice yields the same text.
pub fn generate(program: &Program, is_index: bool) -> (r: GeneratedCode)
    ensures
        r.code@ == program_code_text(*program, is_index),
        r.controllers@.len() == items_ctrls(program.items@).len(),
        forall|i: int|
            0 <= i < r.controllers@.len() ==> r.controllers@[i].struct_name@ == items_ctrls(
                program.items@,
            )[i].0 && r.controllers@[i].route_path@ == items_ctrls(program.items@)[i].1,
{
    let mut g = RustGenerator::new(is_index);
    let mut i: usize = 0;
    while i < program.items.len()
        invariant
            i <= program.items@.len(),
            g.code@ == items_code_text(program.items@.take(i as int), is_index),
            g.main_body@ == items_main_text(program.items@.take(i as int)),
            g.is_index == is_index,
            g.is_exporting == false,
            g.controllers@.len() == items_ctrls(program.items@.take(i as int)).len(),
            forall|k: int|
                0 <= k < g.controllers@.len() ==> g.controllers@[k].struct_name@ == items_ctrls(
                    program.items@.take(i as int),
                )[k].0 && g.controllers@[k].route_path@ == items_ctrls(
                    program.items@.take(i as int),
                )[k].1,
        decreases program.items@.len() - i,
    {
        proof {
            assert(program.items@.take(i + 1 as int).drop_last() =~= program.items@.take(
                i as int,
            ));
            assert(program.items@.take(i + 1 as int).last() == program.items@[i as int]);
        }
        g.process_module_item(&program.items[i]);
        proof {
            match item_ctrl(program.items@[i as int]) {
                Option::Some(meta) => {
                    assert(items_ctrls(program.items@.take(i + 1 as int)) =~= items_ctrls(
                        program.items@.take(i as int),
                    ) + seq![meta]);
                },
                Option::None => {
                    assert(items_ctrls(program.items@.take(i + 1 as int)) =~= items_ctrls(
                        program.items@.take(i as int),
                    ));
                },
            }
        }
        i = i + 1;
    }
    proof {
        assert(program.items@.take(program.items@.len() as int) =~= program.items@);
    }
    let mut code = g.code;
    if g.main_body.as_str().unicode_len() > 0 && is_index {
        code.append("\npub fn main() {\n");
        code.append(g.main_body.as_str());
        code.append("}\n");
    }
    GeneratedCode { code, controllers: g.controllers }
}

} // verus!
