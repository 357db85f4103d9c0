//! Builds the short prompts that ask a code generator for a result
//! map, optionally naming the method whose return type should use it.

use vstd::prelude::*;
use vstd::string::*;

verus! {

/// The prompt text for an entity and a mapper file, with an optional
/// line for the method that should return the result map.
pub open spec fn result_map_prompt(
    entity: Seq<char>,
    xml: Seq<char>,
    method: Option<Seq<char>>,
) -> Seq<char> {
    let head = "为"@ + entity + "生成resultmap放在"@ + xml;
    match method {
        Some(m) => head + "\n"@ + m + "返回修改resultMap"@,
        None => head,
    }
}

/// The prompt without a method line.
pub fn result_map_gen(entity: &str, xml: &str) -> (r: String)
    ensures
        r@ == result_map_prompt(entity@, xml@, None),
{
    result_map_gen_v2(entity, xml, None)
}

/// The prompt, with the method line when a method is named.
pub fn result_map_gen_v2(entity: &str, xml: &str, method: Option<String>) -> (r: String)
    ensures
        r@ == result_map_prompt(
            entity@,
            xml@,
            match method {
                Some(m) => Some(m@),
                None => None,
            },
        ),
{
    let mut head = String::from_str("为");
    head.append(entity);
    head.append("生成resultmap放在");
    head.append(xml);
    match method {
        Some(m) => {
            head.append("\n");
            head.append(m.as_str());
            head.append("返回修改resultMap");
            head
        },
        None => head,
    }
}

} // verus!
