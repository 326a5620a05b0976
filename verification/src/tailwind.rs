//! Tailwind integration: whether a `tailwind.config.js` is generated from
//! `tailwind.toml`, and the JavaScript it holds.
use vstd::prelude::*;
use crate::config::{BuildConfig, MergeConfig, TailwindStyle};
use crate::text::push_str;

verus! {

/// The Tailwind settings read from `tailwind.toml`.
#[derive(Debug)]
pub struct TailwindToml {
    pub content: Option<Vec<String>>,
    pub theme: Option<serde_json::Value>,
    pub plugins: Option<Vec<String>>,
    pub merge: Option<MergeConfig>,
}

/// The lowercase hexadecimal digit for `n` (below 16).
pub open spec fn hex_digit(n: int) -> char {
    if n < 10 {
        ('0' as int + n) as char
    } else {
        ('a' as int + n - 10) as char
    }
}

/// How JSON writes the character `c` inside a string: `"` and `\` and the
/// control characters below U+0020 escaped (the short forms `\b`, `\t`,
/// `\n`, `\f`, `\r` where there is one, else `\u00` and two lowercase hex
/// digits), every other character as it is.
pub open spec fn json_escape(c: char) -> Seq<char> {
    if c == '"' {
        seq!['\\', '"']
    } else if c == '\\' {
        seq!['\\', '\\']
    } else if c == '\u{8}' {
        seq!['\\', 'b']
    } else if c == '\t' {
        seq!['\\', 't']
    } else if c == '\n' {
        seq!['\\', 'n']
    } else if c == '\u{c}' {
        seq!['\\', 'f']
    } else if c == '\r' {
        seq!['\\', 'r']
    } else if (c as int) < 0x20 {
        seq!['\\', 'u', '0', '0', hex_digit(c as int / 16), hex_digit(c as int % 16)]
    } else {
        seq![c]
    }
}

/// The characters of `s`, each as JSON writes it inside a string.
pub open spec fn json_escaped(s: Seq<char>) -> Seq<char>
    decreases s.len(),
{
    if s.len() == 0 {
        Seq::empty()
    } else {
        json_escaped(s.drop_last()) + json_escape(s.last())
    }
}

/// `s` as a JSON string.
pub open spec fn json_string(s: Seq<char>) -> Seq<char> {
    seq!['"'] + json_escaped(s) + seq!['"']
}

/// The JSON strings of `items`, separated by commas.
pub open spec fn json_items(items: Seq<Seq<char>>) -> Seq<char>
    decreases items.len(),
{
    if items.len() == 0 {
        Seq::empty()
    } else if items.len() == 1 {
        json_string(items[0])
    } else {
        json_items(items.drop_last()) + seq![','] + json_string(items.last())
    }
}

/// The compact JSON text of a list of strings: `[`, the strings separated
/// by commas, `]`.
pub open spec fn json_text_of_strings(items: Seq<Seq<char>>) -> Seq<char> {
    seq!['['] + json_items(items) + seq![']']
}

/// `serde_json::to_string` of a list of strings, which cannot fail: the
/// compact JSON array of the strings, as `json_text_of_strings` states it.
#[verifier::external_body]
fn json_strings(items: &Vec<String>) -> (s: String)
    ensures
        s@ == json_text_of_strings(items@.map_values(|x: String| x@)),
{
    serde_json::to_string(items).unwrap_or_default()
}

/// The pretty-printed JSON text of a JSON value (`serde_json::to_string_pretty`).
pub uninterp spec fn pretty_json_text(value: serde_json::Value) -> Seq<char>;

/// `serde_json::to_string_pretty` of a JSON value, which cannot fail for a
/// `serde_json::Value`. The text depends on the value alone; it is named,
/// not stated: it is `pretty_json_text` of the value.
#[verifier::external_body]
fn json_pretty(value: &serde_json::Value) -> (s: String)
    ensures
        s@ == pretty_json_text(*value),
{
    serde_json::to_string_pretty(value).unwrap_or_default()
}

/// `require('<p>'),` for each plugin, in order.
pub open spec fn plugins_js(plugins: Seq<Seq<char>>) -> Seq<char>
    decreases plugins.len(),
{
    if plugins.len() == 0 {
        Seq::empty()
    } else {
        plugins_js(plugins.drop_last()) + "require('"@ + plugins.last() + "'),"@
    }
}

/// The JavaScript config text for the given parts.
pub open spec fn config_js(content: Seq<char>, theme: Seq<char>, plugins: Seq<char>) -> Seq<char> {
    "module.exports = {\n  content: "@ + content + ",\n  theme: "@ + theme + ",\n  plugins: ["@ + plugins + "]\n}"@
}

/// The content globs as JSON: their list, or `[]` when none is set.
pub open spec fn content_js(content: Option<Vec<String>>) -> Seq<char> {
    match content {
        Some(c) => json_text_of_strings(c@.map_values(|x: String| x@)),
        None => "[]"@,
    }
}

/// The theme as pretty JSON, or `{}` when none is set.
pub open spec fn theme_js(theme: Option<serde_json::Value>) -> Seq<char> {
    match theme {
        Some(t) => pretty_json_text(t),
        None => "{}"@,
    }
}

/// The plugin requires, or nothing when none is set.
pub open spec fn plugins_part(plugins: Option<Vec<String>>) -> Seq<char> {
    match plugins {
        Some(p) => plugins_js(p@.map_values(|x: String| x@)),
        None => Seq::empty(),
    }
}

impl TailwindToml {
    /// The `tailwind.config.js` text for these settings.
    pub fn to_js(&self) -> (js: String)
        ensures
            js@ == config_js(content_js(self.content), theme_js(self.theme), plugins_part(self.plugins)),
    {
        let content = match &self.content {
            Some(c) => json_strings(c),
            None => "[]".to_owned(),
        };
        let theme = match &self.theme {
            Some(t) => json_pretty(t),
            None => "{}".to_owned(),
        };
        let mut plugins = String::new();
        if let Some(ps) = &self.plugins {
            let ghost names = ps@.map_values(|x: String| x@);
            let mut i: usize = 0;
            while i < ps.len()
                invariant
                    i <= ps@.len(),
                    names == ps@.map_values(|x: String| x@),
                    plugins@ == plugins_js(names.take(i as int)),
                decreases ps.len() - i,
            {
                push_str(&mut plugins, "require('");
                push_str(&mut plugins, ps[i].as_str());
                push_str(&mut plugins, "'),");
                assert(names.take(i + 1).drop_last() =~= names.take(i as int));
                assert(names.take(i + 1).last() == ps@[i as int]@);
                i = i + 1;
            }
            assert(names.take(names.len() as int) =~= names);
        } else {
            proof {
                reveal_strlit("");
            }
            assert(plugins@ == Seq::<char>::empty());
        }
        let mut js = "module.exports = {\n  content: ".to_owned();
        push_str(&mut js, content.as_str());
        push_str(&mut js, ",\n  theme: ");
        push_str(&mut js, theme.as_str());
        push_str(&mut js, ",\n  plugins: [");
        push_str(&mut js, plugins.as_str());
        push_str(&mut js, "]\n}");
        proof {
            reveal_strlit("{}");
        }
        assert(js@ == config_js(content_js(self.content), theme_js(self.theme), plugins_part(self.plugins)));
        js
    }
}

/// What to do about `tailwind.config.js`.
#[derive(Debug, Clone, Copy, PartialEq, Eq, Structural)]
pub enum TailwindAction {
    /// Nothing: Tailwind v4 needs no config, or there is no `tailwind.toml`.
    Skip,
    /// Generate it from `tailwind.toml`.
    Generate,
    /// Fail: the TOML style was asked for but there is no `tailwind.toml`.
    MissingToml,
}

/// The action for `style` when `tailwind.toml` does or does not exist.
pub fn tailwind_action(style: TailwindStyle, toml_exists: bool) -> (a: TailwindAction)
    ensures
        a == (match style {
            TailwindStyle::V4 => TailwindAction::Skip,
            TailwindStyle::Toml => if toml_exists { TailwindAction::Generate } else { TailwindAction::MissingToml },
            TailwindStyle::Auto => if toml_exists { TailwindAction::Generate } else { TailwindAction::Skip },
        }),
{
    match style {
        TailwindStyle::V4 => TailwindAction::Skip,
        TailwindStyle::Toml => if toml_exists {
            TailwindAction::Generate
        } else {
            TailwindAction::MissingToml
        },
        TailwindStyle::Auto => if toml_exists {
            TailwindAction::Generate
        } else {
            TailwindAction::Skip
        },
    }
}

/// Points the build at a generated Tailwind config unless one is already
/// configured.
pub fn use_generated_config(build: &mut BuildConfig, js_path: String)
    ensures
        match old(build).tailwind_config_file {
            Some(_) => final(build).tailwind_config_file == old(build).tailwind_config_file,
            None => final(build).tailwind_config_file == Some(js_path),
        },
        final(build).target == old(build).target,
        final(build).dist == old(build).dist,
        final(build).site_root == old(build).site_root,
        final(build).site_pkg_name == old(build).site_pkg_name,
        final(build).assets_dir == old(build).assets_dir,
        final(build).tailwind_input_file == old(build).tailwind_input_file,
        final(build).style_file == old(build).style_file,
        final(build).browserquery == old(build).browserquery,
{
    if build.tailwind_config_file.is_none() {
        build.tailwind_config_file = Some(js_path);
    }
}

} // verus!
