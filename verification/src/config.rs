//! The configuration document and the registries built from it.
//!
//! The configuration is a TOML document with three recognized top-level
//! keys: `languages`, an array of strings, and `compile` and `execute`, two
//! tables mapping a language to a command template string. Any other
//! top-level key is ignored. A missing or malformed document is a fatal
//! startup error, reported to the caller as a `ConfigError`.
//!
//! The TOML parser is an outside crate; its result is reduced to the plain
//! shape `TomlNode` and every grammar decision on it is made here, in
//! verified code.

use vstd::prelude::*;

use crate::recipe::Registry;
use crate::recipe::spec_registry_answer;
use crate::text::str_eq;

verus! {

/// `toml::Value` carries the parsed document out of the parser; it is
/// opaque here and reduced to a `TomlNode` before anything reads it.
#[verifier::external_type_specification]
#[verifier::external_body]
pub struct ExTomlValue(toml::Value);

/// A parsed document reduced to what the configuration grammar reads:
/// strings, arrays and tables; any other value is `Other` and malformed
/// wherever the grammar expects something.
pub enum TomlNode {
    Str(String),
    List(Vec<TomlNode>),
    Assoc(Vec<(String, TomlNode)>),
    Other,
}

/// What parsing a configuration text yields: `None` for a text that is not
/// a TOML document, otherwise its reduced shape. The parse is a function of
/// the text alone.
pub uninterp spec fn parsed_document(s: Seq<char>) -> Option<TomlNode>;

/// Parse a configuration text.
///
/// Relies on `toml::from_str::<toml::Table>`: the text is either rejected
/// or parsed into a table of values, deterministically from the text alone.
#[verifier::external_body]
fn parse_document(s: &str) -> (r: Option<TomlNode>)
    ensures
        r == parsed_document(s@),
{
    let table: toml::Table = match toml::from_str(s) {
        Ok(t) => t,
        Err(_) => return None,
    };
    Some(value_to_node(&toml::Value::Table(table)))
}

/// Reduce a parsed value to its plain shape.
///
/// Relies on `toml::Value` only for telling its variants apart; strings,
/// arrays and tables are carried over one for one, everything else becomes
/// `Other`.
#[verifier::external_body]
fn value_to_node(v: &toml::Value) -> TomlNode {
    match v {
        toml::Value::String(s) => TomlNode::Str(s.clone()),
        toml::Value::Array(items) => TomlNode::List(items.iter().map(value_to_node).collect()),
        toml::Value::Table(t) => TomlNode::Assoc(
            t.iter().map(|(k, x)| (k.clone(), value_to_node(x))).collect(),
        ),
        _ => TomlNode::Other,
    }
}

/// A fatal startup error around the configuration.
#[derive(Debug, PartialEq, Eq)]
pub enum ConfigError {
    ConfigMissing,
    ConfigMalformed(String),
}

/// First-match lookup of a top-level key.
pub open spec fn assoc_get(entries: Seq<(String, TomlNode)>, key: Seq<char>) -> Option<TomlNode>
    decreases entries.len(),
{
    if entries.len() == 0 {
        Option::None
    } else if entries[0].0@ == key {
        Option::Some(entries[0].1)
    } else {
        assoc_get(entries.skip(1), key)
    }
}

/// The strings of a `languages` array; `None` when any item is not a
/// string.
pub open spec fn spec_string_items(items: Seq<TomlNode>) -> Option<Seq<Seq<char>>>
    decreases items.len(),
{
    if items.len() == 0 {
        Option::Some(Seq::empty())
    } else {
        match spec_string_items(items.drop_last()) {
            Option::Some(r) => match items.last() {
                TomlNode::Str(s) => Option::Some(r.push(s@)),
                _ => Option::None,
            },
            Option::None => Option::None,
        }
    }
}

/// The string entries of a command section. An entry whose value is not a
/// string is ignored for an unlisted language — the registry would drop it
/// anyway — and malformed for a listed one.
pub open spec fn spec_section_entries(
    entries: Seq<(String, TomlNode)>,
    langs: Seq<Seq<char>>,
) -> Option<Seq<(Seq<char>, Seq<char>)>>
    decreases entries.len(),
{
    if entries.len() == 0 {
        Option::Some(Seq::empty())
    } else {
        match spec_section_entries(entries.drop_last(), langs) {
            Option::Some(r) => match entries.last().1 {
                TomlNode::Str(v) => Option::Some(r.push((entries.last().0@, v@))),
                _ => {
                    if langs.contains(entries.last().0@) {
                        Option::None
                    } else {
                        Option::Some(r)
                    }
                },
            },
            Option::None => Option::None,
        }
    }
}

/// The three sections of a well-formed document: the language list and the
/// entries of the `compile` and the `execute` table. `None` wherever the
/// grammar is violated.
pub open spec fn spec_config_sections(doc: Option<TomlNode>) -> Option<
    (Seq<Seq<char>>, Seq<(Seq<char>, Seq<char>)>, Seq<(Seq<char>, Seq<char>)>),
> {
    match doc {
        Option::Some(TomlNode::Assoc(top)) => {
            let langs = match assoc_get(top@, "languages"@) {
                Option::Some(TomlNode::List(items)) => spec_string_items(items@),
                _ => Option::None,
            };
            match langs {
                Option::Some(ls) => {
                    let compile = match assoc_get(top@, "compile"@) {
                        Option::Some(TomlNode::Assoc(es)) => spec_section_entries(es@, ls),
                        _ => Option::None,
                    };
                    let execute = match assoc_get(top@, "execute"@) {
                        Option::Some(TomlNode::Assoc(es)) => spec_section_entries(es@, ls),
                        _ => Option::None,
                    };
                    match (compile, execute) {
                        (Option::Some(c), Option::Some(e)) => Option::Some((ls, c, e)),
                        _ => Option::None,
                    }
                },
                Option::None => Option::None,
            }
        },
        _ => Option::None,
    }
}

/// Look a top-level key up.
fn assoc_get_exec<'a>(entries: &'a Vec<(String, TomlNode)>, key: &str) -> (r: Option<
    &'a TomlNode,
>)
    ensures
        match r {
            Option::Some(node) => assoc_get(entries@, key@) == Option::Some(*node),
            Option::None => assoc_get(entries@, key@) is None,
        },
{
    let n: usize = entries.len();
    let mut i: usize = 0;
    proof {
        assert(entries@.skip(0) =~= entries@);
    }
    while i < n
        invariant
            i <= n,
            n == entries@.len(),
            assoc_get(entries@.skip(i as int), key@) == assoc_get(entries@, key@),
        decreases n - i,
    {
        proof {
            assert(entries@.skip(i as int)[0] == entries@[i as int]);
            assert(entries@.skip(i as int).skip(1) =~= entries@.skip(i as int + 1));
        }
        if str_eq(entries[i].0.as_str(), key) {
            return Option::Some(&entries[i].1);
        }
        i = i + 1;
    }
    assert(entries@.skip(n as int).len() == 0);
    Option::None
}

/// A violated string-items prefix cannot recover.
proof fn lemma_string_items_prefix(items: Seq<TomlNode>, i: int)
    requires
        0 <= i <= items.len(),
        spec_string_items(items.subrange(0, i)) is None,
    ensures
        spec_string_items(items) is None,
    decreases items.len() - i,
{
    if i < items.len() {
        assert(items.subrange(0, i + 1).drop_last() =~= items.subrange(0, i));
        lemma_string_items_prefix(items, i + 1);
    } else {
        assert(items.subrange(0, i) =~= items);
    }
}

/// A violated section prefix cannot recover.
proof fn lemma_section_entries_prefix(
    entries: Seq<(String, TomlNode)>,
    langs: Seq<Seq<char>>,
    i: int,
)
    requires
        0 <= i <= entries.len(),
        spec_section_entries(entries.subrange(0, i), langs) is None,
    ensures
        spec_section_entries(entries, langs) is None,
    decreases entries.len() - i,
{
    if i < entries.len() {
        assert(entries.subrange(0, i + 1).drop_last() =~= entries.subrange(0, i));
        lemma_section_entries_prefix(entries, langs, i + 1);
    } else {
        assert(entries.subrange(0, i) =~= entries);
    }
}

/// Whether a language list holds `s`.
fn langs_contain(langs: &Vec<String>, s: &str) -> (r: bool)
    ensures
        r == langs.deep_view().contains(s@),
{
    let n: usize = langs.len();
    let mut i: usize = 0;
    while i < n
        invariant
            i <= n,
            n == langs@.len(),
            forall|j: int| 0 <= j < i ==> langs.deep_view()[j] != s@,
        decreases n - i,
    {
        if str_eq(langs[i].as_str(), s) {
            assert(langs.deep_view()[i as int] == s@);
            return true;
        }
        i = i + 1;
    }
    assert(!langs.deep_view().contains(s@)) by {
        if langs.deep_view().contains(s@) {
            let j = choose|j: int| 0 <= j < langs.deep_view().len() && langs.deep_view()[j] == s@;
        }
    }
    false
}

/// Collect the strings of the `languages` array.
fn collect_languages(items: &Vec<TomlNode>) -> (r: Result<Vec<String>, ConfigError>)
    ensures
        (r is Ok) == (spec_string_items(items@) is Some),
        r matches Result::Ok(langs) ==> Option::Some(langs.deep_view()) == spec_string_items(
            items@,
        ),
        r matches Result::Err(e) ==> e is ConfigMalformed,
{
    let n: usize = items.len();
    let mut langs: Vec<String> = Vec::new();
    let mut i: usize = 0;
    proof {
        assert(items@.subrange(0, 0) =~= Seq::<TomlNode>::empty());
    }
    while i < n
        invariant
            i <= n,
            n == items@.len(),
            spec_string_items(items@.subrange(0, i as int)) == Option::Some(langs.deep_view()),
        decreases n - i,
    {
        let ghost pre = items@.subrange(0, i as int);
        proof {
            assert(items@.subrange(0, i as int + 1).drop_last() =~= pre);
            assert(items@.subrange(0, i as int + 1).last() == items@[i as int]);
        }
        let ghost old_langs = langs.deep_view();
        match &items[i] {
            TomlNode::Str(s) => {
                let ghost sv = s@;
                langs.push(s.clone());
                proof {
                    assert(langs.deep_view() =~= old_langs.push(sv));
                }
            },
            _ => {
                proof {
                    lemma_string_items_prefix(items@, i as int + 1);
                }
                return Result::Err(
                    ConfigError::ConfigMalformed(
                        "config: [languages] should be set correctly".to_owned(),
                    ),
                );
            },
        }
        i = i + 1;
    }
    proof {
        assert(items@.subrange(0, n as int) =~= items@);
    }
    Result::Ok(langs)
}

/// Collect the string entries of a command section.
fn collect_section(entries: &Vec<(String, TomlNode)>, langs: &Vec<String>, section: &str) -> (r:
    Result<Vec<(String, String)>, ConfigError>)
    ensures
        (r is Ok) == (spec_section_entries(entries@, langs.deep_view()) is Some),
        r matches Result::Ok(cmds) ==> Option::Some(cmds.deep_view()) == spec_section_entries(
            entries@,
            langs.deep_view(),
        ),
        r matches Result::Err(e) ==> e is ConfigMalformed,
{
    let n: usize = entries.len();
    let mut cmds: Vec<(String, String)> = Vec::new();
    let mut i: usize = 0;
    proof {
        assert(entries@.subrange(0, 0) =~= Seq::<(String, TomlNode)>::empty());
    }
    while i < n
        invariant
            i <= n,
            n == entries@.len(),
            spec_section_entries(entries@.subrange(0, i as int), langs.deep_view())
                == Option::Some(cmds.deep_view()),
        decreases n - i,
    {
        let ghost pre = entries@.subrange(0, i as int);
        proof {
            assert(entries@.subrange(0, i as int + 1).drop_last() =~= pre);
            assert(entries@.subrange(0, i as int + 1).last() == entries@[i as int]);
        }
        let ghost old_cmds = cmds.deep_view();
        match &entries[i].1 {
            TomlNode::Str(v) => {
                let ghost kv = (entries@[i as int].0@, v@);
                cmds.push((entries[i].0.clone(), v.clone()));
                proof {
                    assert(cmds.deep_view() =~= old_cmds.push(kv));
                }
            },
            _ => {
                if langs_contain(langs, entries[i].0.as_str()) {
                    proof {
                        lemma_section_entries_prefix(entries@, langs.deep_view(), i as int + 1);
                    }
                    let mut msg: String = "config: [".to_owned();
                    msg.append(section);
                    msg.append("] should be set correctly");
                    return Result::Err(ConfigError::ConfigMalformed(msg));
                }
            },
        }
        i = i + 1;
    }
    proof {
        assert(entries@.subrange(0, n as int) =~= entries@);
    }
    Result::Ok(cmds)
}

/// Build the compile and the execute registry from a configuration text.
/// Exactly the well-formed documents are accepted, and each registry
/// answers for each language what its section assigns to it.
pub fn load_registries(config_text: &str) -> (r: Result<(Registry, Registry), ConfigError>)
    ensures
        (r is Ok) == (spec_config_sections(parsed_document(config_text@)) is Some),
        r matches Result::Ok(regs) ==> {
            let sections = spec_config_sections(parsed_document(config_text@))->0;
            &&& regs.0.wf()
            &&& regs.1.wf()
            &&& forall|l: Seq<char>|
                #[trigger] regs.0.spec_get(l) == spec_registry_answer(sections.0, sections.1, l)
            &&& forall|l: Seq<char>|
                #[trigger] regs.1.spec_get(l) == spec_registry_answer(sections.0, sections.2, l)
        },
        r matches Result::Err(e) ==> e is ConfigMalformed,
{
    let doc: TomlNode = match parse_document(config_text) {
        Option::Some(d) => d,
        Option::None => {
            return Result::Err(
                ConfigError::ConfigMalformed("config: the document cannot be read".to_owned()),
            );
        },
    };
    let top: &Vec<(String, TomlNode)> = match &doc {
        TomlNode::Assoc(top) => top,
        _ => {
            return Result::Err(
                ConfigError::ConfigMalformed("config: the document cannot be read".to_owned()),
            );
        },
    };
    let langs: Vec<String> = match assoc_get_exec(top, "languages") {
        Option::Some(TomlNode::List(items)) => {
            match collect_languages(items) {
                Result::Ok(ls) => ls,
                Result::Err(e) => {
                    return Result::Err(e);
                },
            }
        },
        _ => {
            return Result::Err(
                ConfigError::ConfigMalformed(
                    "config: [languages] should be set correctly".to_owned(),
                ),
            );
        },
    };
    let compile_cmds: Vec<(String, String)> = match assoc_get_exec(top, "compile") {
        Option::Some(TomlNode::Assoc(es)) => {
            match collect_section(es, &langs, "compile") {
                Result::Ok(cs) => cs,
                Result::Err(e) => {
                    return Result::Err(e);
                },
            }
        },
        _ => {
            return Result::Err(
                ConfigError::ConfigMalformed(
                    "config: [compile] should be set correctly".to_owned(),
                ),
            );
        },
    };
    let execute_cmds: Vec<(String, String)> = match assoc_get_exec(top, "execute") {
        Option::Some(TomlNode::Assoc(es)) => {
            match collect_section(es, &langs, "execute") {
                Result::Ok(cs) => cs,
                Result::Err(e) => {
                    return Result::Err(e);
                },
            }
        },
        _ => {
            return Result::Err(
                ConfigError::ConfigMalformed(
                    "config: [execute] should be set correctly".to_owned(),
                ),
            );
        },
    };
    let compile_registry = Registry::build(&langs, &compile_cmds);
    let execute_registry = Registry::build(&langs, &execute_cmds);
    Result::Ok((compile_registry, execute_registry))
}

} // verus!
