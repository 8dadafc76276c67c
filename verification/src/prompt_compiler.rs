//! The assembly of a reading prompt: the templates of its prompt family, and what the request
//! and its interpretation profile add to them.
use vstd::prelude::*;

use crate::json::JsonValue;
use crate::payload_sanitizer::{has_injection, sanitize_custom_instructions};
use crate::period_payload::{join, join_strings};
use crate::text::{is_blank, str_is_blank, string_views, trim, trim_str};

verus! {

/// What a prompt is assembled from: the four templates of its prompt family, the additions of
/// the interpretation profile and of a repair, the blocks of the language and of the
/// astrologer, the domains and chapter, the effective safety policy, and the data to write from.
pub struct PromptParts {
    pub system_template: String,
    pub task_template: String,
    pub format_template: String,
    pub safety_template: String,
    /// The task fragment of the interpretation profile's document.
    pub task_fragment: Option<String>,
    /// The constraints block of the simplified profile, where the request carries controls.
    pub constraints_block: Option<String>,
    pub repair_instruction: Option<String>,
    /// The chapter structure template, where it is injected and could be read.
    pub chapter_structure: Option<String>,
    pub language_block: String,
    pub abbreviation_rule: String,
    pub profile_block: String,
    pub selected_domains: Vec<String>,
    pub chapter_code: Option<String>,
    pub safety_policy_text: String,
    pub data_payload: JsonValue,
    pub prompt_family: String,
    pub prompt_version: String,
}

/// The instructions a provider is given, with the data and the prompt family they come from.
pub struct PromptBundle {
    pub system_instructions: String,
    pub task_instructions: String,
    pub format_instructions: String,
    pub safety_instructions: String,
    pub data_payload: JsonValue,
    pub prompt_family: String,
    pub prompt_version: String,
}

/// A text preceded by a blank line where it is given, nothing else.
pub open spec fn paragraph(o: Option<String>) -> Seq<char> {
    match o {
        Some(t) => "\n\n"@ + t@,
        None => Seq::empty(),
    }
}

/// The task: its template, then the profile's fragment (trimmed, where it is not blank), the
/// constraints block, the repair instruction (trimmed, where it is not blank) and the chapter
/// structure, each after a blank line.
pub open spec fn task_text(p: PromptParts) -> Seq<char> {
    p.task_template@ + match p.task_fragment {
        Some(f) => if is_blank(f@) {
            Seq::empty()
        } else {
            "\n\n"@ + trim(f@)
        },
        None => Seq::empty(),
    } + paragraph(p.constraints_block) + match p.repair_instruction {
        Some(r) => if is_blank(r@) {
            Seq::empty()
        } else {
            "\n\nREPAIR INSTRUCTION (mandatory):\n"@ + trim(r@)
        },
        None => Seq::empty(),
    } + paragraph(p.chapter_structure)
}

/// The system instructions: the template, the language block, the abbreviation rule and the
/// astrologer's block, each after a blank line, then the domains and the chapter to focus on.
pub open spec fn system_text(p: PromptParts) -> Seq<char> {
    p.system_template@ + "\n\n"@ + p.language_block@ + "\n\n"@ + p.abbreviation_rule@ + "\n\n"@ + p.profile_block@
        + "\n\nDomains: "@ + join(string_views(p.selected_domains@), ", "@) + "\n"@ + match p.chapter_code {
        Some(c) => "Focus chapter code: "@ + c@,
        None => Seq::empty(),
    }
}

/// The safety instructions: the template, then the effective policy.
pub open spec fn safety_text(p: PromptParts) -> Seq<char> {
    p.safety_template@ + "\n\nEffective policy:\n"@ + p.safety_policy_text@
}

fn cat(a: &str, b: &str) -> (r: String)
    ensures
        r@ == a@ + b@,
{
    let mut s = a.to_owned();
    s.append(b);
    s
}

/// Assembles a prompt from its parts (see `task_text`, `system_text`, `safety_text`); the
/// format instructions, the data and the prompt family pass as they are.
pub fn assemble_prompt_bundle(parts: PromptParts) -> (r: PromptBundle)
    ensures
        r.system_instructions@ == system_text(parts),
        r.task_instructions@ == task_text(parts),
        r.format_instructions@ == parts.format_template@,
        r.safety_instructions@ == safety_text(parts),
        r.data_payload == parts.data_payload,
        r.prompt_family@ == parts.prompt_family@,
        r.prompt_version@ == parts.prompt_version@,
{
    let ghost p = parts;
    let mut task = parts.task_template.clone();
    let ghost t0 = task@;
    match &parts.task_fragment {
        Some(f) => if !str_is_blank(f.as_str()) {
            task.append("\n\n");
            task.append(trim_str(f.as_str()).as_str());
        },
        None => {},
    }
    let ghost t1 = task@;
    match &parts.constraints_block {
        Some(c) => {
            task.append("\n\n");
            task.append(c.as_str());
        },
        None => {},
    }
    let ghost t2 = task@;
    match &parts.repair_instruction {
        Some(r) => if !str_is_blank(r.as_str()) {
            task.append("\n\nREPAIR INSTRUCTION (mandatory):\n");
            task.append(trim_str(r.as_str()).as_str());
        },
        None => {},
    }
    let ghost t3 = task@;
    match &parts.chapter_structure {
        Some(s) => {
            task.append("\n\n");
            task.append(s.as_str());
        },
        None => {},
    }
    proof {
        reveal_strlit("");
        assert(task@ =~= task_text(p));
    }
    let domains = join_strings(&parts.selected_domains, ", ");
    let mut system = parts.system_template.clone();
    system.append("\n\n");
    system.append(parts.language_block.as_str());
    system.append("\n\n");
    system.append(parts.abbreviation_rule.as_str());
    system.append("\n\n");
    system.append(parts.profile_block.as_str());
    system.append("\n\nDomains: ");
    system.append(domains.as_str());
    system.append("\n");
    match &parts.chapter_code {
        Some(c) => {
            system.append("Focus chapter code: ");
            system.append(c.as_str());
        },
        None => {},
    }
    proof {
        assert(system@ =~= system_text(p));
    }
    let safety = cat(cat(parts.safety_template.as_str(), "\n\nEffective policy:\n").as_str(), parts.safety_policy_text.as_str());
    PromptBundle {
        system_instructions: system,
        task_instructions: task,
        format_instructions: parts.format_template,
        safety_instructions: safety,
        data_payload: parts.data_payload,
        prompt_family: parts.prompt_family,
        prompt_version: parts.prompt_version,
    }
}

/// The astrologer's block: the output language, tone, jargon level and wording style, the
/// preferred domains (the profile's, else the selected ones), the forbidden wording (`none`
/// where there is none) and the custom style notes, where they are given and pass the
/// sanitizer.
pub open spec fn profile_block_text(
    output_language: Seq<char>,
    tone: Seq<char>,
    jargon: Seq<char>,
    wording: Seq<char>,
    preferred: Seq<Seq<char>>,
    selected: Seq<Seq<char>>,
    forbidden: Seq<Seq<char>>,
    custom: Option<Seq<char>>,
) -> Seq<char> {
    let domains = if preferred.len() == 0 {
        join(selected, ", "@)
    } else {
        join(preferred, ", "@)
    };
    let forbid = if forbidden.len() == 0 {
        "none"@
    } else {
        join(forbidden, ", "@)
    };
    let notes = match custom {
        Some(t) => if has_injection(trim(t)) {
            Seq::empty()
        } else {
            "\nCustom style notes (non-authoritative): "@ + trim(t)
        },
        None => Seq::empty(),
    };
    "ASTROLOGER STYLE (runtime):\nOutput language: "@ + output_language + "\nTone: "@ + tone + "\nJargon level: "@ + jargon
        + "\nWording style: "@ + wording + "\nPreferred domains: "@ + domains + "\nForbidden wording: "@ + forbid + notes
}

/// The astrologer's block of a prompt (see `profile_block_text`); the tone, jargon level and
/// wording style come as their names.
pub fn build_profile_block(
    output_language: &str,
    tone: &str,
    jargon: &str,
    wording: &str,
    preferred: &Vec<String>,
    selected: &Vec<String>,
    forbidden: &Vec<String>,
    custom: &Option<String>,
) -> (r: String)
    ensures
        r@ == profile_block_text(
            output_language@,
            tone@,
            jargon@,
            wording@,
            string_views(preferred@),
            string_views(selected@),
            string_views(forbidden@),
            match custom {
                Some(t) => Some(t@),
                None => None,
            },
        ),
{
    let domains = if preferred.len() == 0 {
        join_strings(selected, ", ")
    } else {
        join_strings(preferred, ", ")
    };
    let forbid = if forbidden.len() == 0 {
        "none".to_owned()
    } else {
        join_strings(forbidden, ", ")
    };
    let notes = match custom {
        Some(t) => match sanitize_custom_instructions(t.as_str()) {
            Ok(clean) => cat("\nCustom style notes (non-authoritative): ", clean.as_str()),
            Err(_) => String::new(),
        },
        None => String::new(),
    };
    let mut out = cat("ASTROLOGER STYLE (runtime):\nOutput language: ", output_language);
    out.append("\nTone: ");
    out.append(tone);
    out.append("\nJargon level: ");
    out.append(jargon);
    out.append("\nWording style: ");
    out.append(wording);
    out.append("\nPreferred domains: ");
    out.append(domains.as_str());
    out.append("\nForbidden wording: ");
    out.append(forbid.as_str());
    out.append(notes.as_str());
    proof {
        assert(string_views(preferred@).len() == preferred@.len());
        assert(string_views(forbidden@).len() == forbidden@.len());
        assert(out@ =~= profile_block_text(
            output_language@,
            tone@,
            jargon@,
            wording@,
            string_views(preferred@),
            string_views(selected@),
            string_views(forbidden@),
            match custom {
                Some(t) => Some(t@),
                None => None,
            },
        ));
    }
    out
}

} // verus!
