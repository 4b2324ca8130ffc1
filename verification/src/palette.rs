//! The bundled utility-class color palette: each color family maps a
//! numeric shade to a hex value.

use vstd::prelude::*;
use crate::ordmap::{m_contains, m_val, m_wf, OrdMap};
use crate::strutil::{chars_eq_str, chars_to_string, push_str_chars, split_char, split_char_spec, str_to_chars};

verus! {

pub open spec fn shade_slate(sh: Seq<char>) -> Option<Seq<char>> {
    if sh == "50"@ {
        Some("#f8fafc"@)
    } else if sh == "100"@ {
        Some("#f1f5f9"@)
    } else if sh == "200"@ {
        Some("#e2e8f0"@)
    } else if sh == "300"@ {
        Some("#cbd5e1"@)
    } else if sh == "400"@ {
        Some("#94a3b8"@)
    } else if sh == "500"@ {
        Some("#64748b"@)
    } else if sh == "600"@ {
        Some("#475569"@)
    } else if sh == "700"@ {
        Some("#334155"@)
    } else if sh == "800"@ {
        Some("#1e293b"@)
    } else if sh == "900"@ {
        Some("#0f172a"@)
    } else if sh == "950"@ {
        Some("#020617"@)
    } else {
        None
    }
}

fn shade_slate_exec(sh: &Vec<char>) -> (r: Option<String>)
    ensures
        match r {
            Some(s) => shade_slate(sh@) == Some(s@),
            None => shade_slate(sh@) is None,
        },
{
    if chars_eq_str(sh, "50") {
        Some(String::from_str("#f8fafc"))
    } else if chars_eq_str(sh, "100") {
        Some(String::from_str("#f1f5f9"))
    } else if chars_eq_str(sh, "200") {
        Some(String::from_str("#e2e8f0"))
    } else if chars_eq_str(sh, "300") {
        Some(String::from_str("#cbd5e1"))
    } else if chars_eq_str(sh, "400") {
        Some(String::from_str("#94a3b8"))
    } else if chars_eq_str(sh, "500") {
        Some(String::from_str("#64748b"))
    } else if chars_eq_str(sh, "600") {
        Some(String::from_str("#475569"))
    } else if chars_eq_str(sh, "700") {
        Some(String::from_str("#334155"))
    } else if chars_eq_str(sh, "800") {
        Some(String::from_str("#1e293b"))
    } else if chars_eq_str(sh, "900") {
        Some(String::from_str("#0f172a"))
    } else if chars_eq_str(sh, "950") {
        Some(String::from_str("#020617"))
    } else {
        None
    }
}

pub open spec fn shade_gray(sh: Seq<char>) -> Option<Seq<char>> {
    if sh == "50"@ {
        Some("#f9fafb"@)
    } else if sh == "100"@ {
        Some("#f3f4f6"@)
    } else if sh == "200"@ {
        Some("#e5e7eb"@)
    } else if sh == "300"@ {
        Some("#d1d5db"@)
    } else if sh == "400"@ {
        Some("#9ca3af"@)
    } else if sh == "500"@ {
        Some("#6b7280"@)
    } else if sh == "600"@ {
        Some("#4b5563"@)
    } else if sh == "700"@ {
        Some("#374151"@)
    } else if sh == "800"@ {
        Some("#1f2937"@)
    } else if sh == "900"@ {
        Some("#111827"@)
    } else if sh == "950"@ {
        Some("#030712"@)
    } else {
        None
    }
}

fn shade_gray_exec(sh: &Vec<char>) -> (r: Option<String>)
    ensures
        match r {
            Some(s) => shade_gray(sh@) == Some(s@),
            None => shade_gray(sh@) is None,
        },
{
    if chars_eq_str(sh, "50") {
        Some(String::from_str("#f9fafb"))
    } else if chars_eq_str(sh, "100") {
        Some(String::from_str("#f3f4f6"))
    } else if chars_eq_str(sh, "200") {
        Some(String::from_str("#e5e7eb"))
    } else if chars_eq_str(sh, "300") {
        Some(String::from_str("#d1d5db"))
    } else if chars_eq_str(sh, "400") {
        Some(String::from_str("#9ca3af"))
    } else if chars_eq_str(sh, "500") {
        Some(String::from_str("#6b7280"))
    } else if chars_eq_str(sh, "600") {
        Some(String::from_str("#4b5563"))
    } else if chars_eq_str(sh, "700") {
        Some(String::from_str("#374151"))
    } else if chars_eq_str(sh, "800") {
        Some(String::from_str("#1f2937"))
    } else if chars_eq_str(sh, "900") {
        Some(String::from_str("#111827"))
    } else if chars_eq_str(sh, "950") {
        Some(String::from_str("#030712"))
    } else {
        None
    }
}

pub open spec fn shade_zinc(sh: Seq<char>) -> Option<Seq<char>> {
    if sh == "50"@ {
        Some("#fafafa"@)
    } else if sh == "100"@ {
        Some("#f4f4f5"@)
    } else if sh == "200"@ {
        Some("#e4e4e7"@)
    } else if sh == "300"@ {
        Some("#d4d4d8"@)
    } else if sh == "400"@ {
        Some("#a1a1aa"@)
    } else if sh == "500"@ {
        Some("#71717a"@)
    } else if sh == "600"@ {
        Some("#52525b"@)
    } else if sh == "700"@ {
        Some("#3f3f46"@)
    } else if sh == "800"@ {
        Some("#27272a"@)
    } else if sh == "900"@ {
        Some("#18181b"@)
    } else if sh == "950"@ {
        Some("#09090b"@)
    } else {
        None
    }
}

fn shade_zinc_exec(sh: &Vec<char>) -> (r: Option<String>)
    ensures
        match r {
            Some(s) => shade_zinc(sh@) == Some(s@),
            None => shade_zinc(sh@) is None,
        },
{
    if chars_eq_str(sh, "50") {
        Some(String::from_str("#fafafa"))
    } else if chars_eq_str(sh, "100") {
        Some(String::from_str("#f4f4f5"))
    } else if chars_eq_str(sh, "200") {
        Some(String::from_str("#e4e4e7"))
    } else if chars_eq_str(sh, "300") {
        Some(String::from_str("#d4d4d8"))
    } else if chars_eq_str(sh, "400") {
        Some(String::from_str("#a1a1aa"))
    } else if chars_eq_str(sh, "500") {
        Some(String::from_str("#71717a"))
    } else if chars_eq_str(sh, "600") {
        Some(String::from_str("#52525b"))
    } else if chars_eq_str(sh, "700") {
        Some(String::from_str("#3f3f46"))
    } else if chars_eq_str(sh, "800") {
        Some(String::from_str("#27272a"))
    } else if chars_eq_str(sh, "900") {
        Some(String::from_str("#18181b"))
    } else if chars_eq_str(sh, "950") {
        Some(String::from_str("#09090b"))
    } else {
        None
    }
}

pub open spec fn shade_neutral(sh: Seq<char>) -> Option<Seq<char>> {
    if sh == "50"@ {
        Some("#fafafa"@)
    } else if sh == "100"@ {
        Some("#f5f5f5"@)
    } else if sh == "200"@ {
        Some("#e5e5e5"@)
    } else if sh == "300"@ {
        Some("#d4d4d4"@)
    } else if sh == "400"@ {
        Some("#a3a3a3"@)
    } else if sh == "500"@ {
        Some("#737373"@)
    } else if sh == "600"@ {
        Some("#525252"@)
    } else if sh == "700"@ {
        Some("#404040"@)
    } else if sh == "800"@ {
        Some("#262626"@)
    } else if sh == "900"@ {
        Some("#171717"@)
    } else if sh == "950"@ {
        Some("#0a0a0a"@)
    } else {
        None
    }
}

fn shade_neutral_exec(sh: &Vec<char>) -> (r: Option<String>)
    ensures
        match r {
            Some(s) => shade_neutral(sh@) == Some(s@),
            None => shade_neutral(sh@) is None,
        },
{
    if chars_eq_str(sh, "50") {
        Some(String::from_str("#fafafa"))
    } else if chars_eq_str(sh, "100") {
        Some(String::from_str("#f5f5f5"))
    } else if chars_eq_str(sh, "200") {
        Some(String::from_str("#e5e5e5"))
    } else if chars_eq_str(sh, "300") {
        Some(String::from_str("#d4d4d4"))
    } else if chars_eq_str(sh, "400") {
        Some(String::from_str("#a3a3a3"))
    } else if chars_eq_str(sh, "500") {
        Some(String::from_str("#737373"))
    } else if chars_eq_str(sh, "600") {
        Some(String::from_str("#525252"))
    } else if chars_eq_str(sh, "700") {
        Some(String::from_str("#404040"))
    } else if chars_eq_str(sh, "800") {
        Some(String::from_str("#262626"))
    } else if chars_eq_str(sh, "900") {
        Some(String::from_str("#171717"))
    } else if chars_eq_str(sh, "950") {
        Some(String::from_str("#0a0a0a"))
    } else {
        None
    }
}

pub open spec fn shade_stone(sh: Seq<char>) -> Option<Seq<char>> {
    if sh == "50"@ {
        Some("#fafaf9"@)
    } else if sh == "100"@ {
        Some("#f5f5f4"@)
    } else if sh == "200"@ {
        Some("#e7e5e4"@)
    } else if sh == "300"@ {
        Some("#d6d3d1"@)
    } else if sh == "400"@ {
        Some("#a8a29e"@)
    } else if sh == "500"@ {
        Some("#78716c"@)
    } else if sh == "600"@ {
        Some("#57534e"@)
    } else if sh == "700"@ {
        Some("#44403c"@)
    } else if sh == "800"@ {
        Some("#292524"@)
    } else if sh == "900"@ {
        Some("#1c1917"@)
    } else if sh == "950"@ {
        Some("#0c0a09"@)
    } else {
        None
    }
}

fn shade_stone_exec(sh: &Vec<char>) -> (r: Option<String>)
    ensures
        match r {
            Some(s) => shade_stone(sh@) == Some(s@),
            None => shade_stone(sh@) is None,
        },
{
    if chars_eq_str(sh, "50") {
        Some(String::from_str("#fafaf9"))
    } else if chars_eq_str(sh, "100") {
        Some(String::from_str("#f5f5f4"))
    } else if chars_eq_str(sh, "200") {
        Some(String::from_str("#e7e5e4"))
    } else if chars_eq_str(sh, "300") {
        Some(String::from_str("#d6d3d1"))
    } else if chars_eq_str(sh, "400") {
        Some(String::from_str("#a8a29e"))
    } else if chars_eq_str(sh, "500") {
        Some(String::from_str("#78716c"))
    } else if chars_eq_str(sh, "600") {
        Some(String::from_str("#57534e"))
    } else if chars_eq_str(sh, "700") {
        Some(String::from_str("#44403c"))
    } else if chars_eq_str(sh, "800") {
        Some(String::from_str("#292524"))
    } else if chars_eq_str(sh, "900") {
        Some(String::from_str("#1c1917"))
    } else if chars_eq_str(sh, "950") {
        Some(String::from_str("#0c0a09"))
    } else {
        None
    }
}

pub open spec fn shade_red(sh: Seq<char>) -> Option<Seq<char>> {
    if sh == "50"@ {
        Some("#fef2f2"@)
    } else if sh == "100"@ {
        Some("#fee2e2"@)
    } else if sh == "200"@ {
        Some("#fecaca"@)
    } else if sh == "300"@ {
        Some("#fca5a5"@)
    } else if sh == "400"@ {
        Some("#f87171"@)
    } else if sh == "500"@ {
        Some("#ef4444"@)
    } else if sh == "600"@ {
        Some("#dc2626"@)
    } else if sh == "700"@ {
        Some("#b91c1c"@)
    } else if sh == "800"@ {
        Some("#991b1b"@)
    } else if sh == "900"@ {
        Some("#7f1d1d"@)
    } else if sh == "950"@ {
        Some("#450a0a"@)
    } else {
        None
    }
}

fn shade_red_exec(sh: &Vec<char>) -> (r: Option<String>)
    ensures
        match r {
            Some(s) => shade_red(sh@) == Some(s@),
            None => shade_red(sh@) is None,
        },
{
    if chars_eq_str(sh, "50") {
        Some(String::from_str("#fef2f2"))
    } else if chars_eq_str(sh, "100") {
        Some(String::from_str("#fee2e2"))
    } else if chars_eq_str(sh, "200") {
        Some(String::from_str("#fecaca"))
    } else if chars_eq_str(sh, "300") {
        Some(String::from_str("#fca5a5"))
    } else if chars_eq_str(sh, "400") {
        Some(String::from_str("#f87171"))
    } else if chars_eq_str(sh, "500") {
        Some(String::from_str("#ef4444"))
    } else if chars_eq_str(sh, "600") {
        Some(String::from_str("#dc2626"))
    } else if chars_eq_str(sh, "700") {
        Some(String::from_str("#b91c1c"))
    } else if chars_eq_str(sh, "800") {
        Some(String::from_str("#991b1b"))
    } else if chars_eq_str(sh, "900") {
        Some(String::from_str("#7f1d1d"))
    } else if chars_eq_str(sh, "950") {
        Some(String::from_str("#450a0a"))
    } else {
        None
    }
}

pub open spec fn shade_orange(sh: Seq<char>) -> Option<Seq<char>> {
    if sh == "50"@ {
        Some("#fff7ed"@)
    } else if sh == "100"@ {
        Some("#ffedd5"@)
    } else if sh == "200"@ {
        Some("#fed7aa"@)
    } else if sh == "300"@ {
        Some("#fdba74"@)
    } else if sh == "400"@ {
        Some("#fb923c"@)
    } else if sh == "500"@ {
        Some("#f97316"@)
    } else if sh == "600"@ {
        Some("#ea580c"@)
    } else if sh == "700"@ {
        Some("#c2410c"@)
    } else if sh == "800"@ {
        Some("#9a3412"@)
    } else if sh == "900"@ {
        Some("#7c2d12"@)
    } else if sh == "950"@ {
        Some("#431407"@)
    } else {
        None
    }
}

fn shade_orange_exec(sh: &Vec<char>) -> (r: Option<String>)
    ensures
        match r {
            Some(s) => shade_orange(sh@) == Some(s@),
            None => shade_orange(sh@) is None,
        },
{
    if chars_eq_str(sh, "50") {
        Some(String::from_str("#fff7ed"))
    } else if chars_eq_str(sh, "100") {
        Some(String::from_str("#ffedd5"))
    } else if chars_eq_str(sh, "200") {
        Some(String::from_str("#fed7aa"))
    } else if chars_eq_str(sh, "300") {
        Some(String::from_str("#fdba74"))
    } else if chars_eq_str(sh, "400") {
        Some(String::from_str("#fb923c"))
    } else if chars_eq_str(sh, "500") {
        Some(String::from_str("#f97316"))
    } else if chars_eq_str(sh, "600") {
        Some(String::from_str("#ea580c"))
    } else if chars_eq_str(sh, "700") {
        Some(String::from_str("#c2410c"))
    } else if chars_eq_str(sh, "800") {
        Some(String::from_str("#9a3412"))
    } else if chars_eq_str(sh, "900") {
        Some(String::from_str("#7c2d12"))
    } else if chars_eq_str(sh, "950") {
        Some(String::from_str("#431407"))
    } else {
        None
    }
}

pub open spec fn shade_amber(sh: Seq<char>) -> Option<Seq<char>> {
    if sh == "50"@ {
        Some("#fffbeb"@)
    } else if sh == "100"@ {
        Some("#fef3c7"@)
    } else if sh == "200"@ {
        Some("#fde68a"@)
    } else if sh == "300"@ {
        Some("#fcd34d"@)
    } else if sh == "400"@ {
        Some("#fbbf24"@)
    } else if sh == "500"@ {
        Some("#f59e0b"@)
    } else if sh == "600"@ {
        Some("#d97706"@)
    } else if sh == "700"@ {
        Some("#b45309"@)
    } else if sh == "800"@ {
        Some("#92400e"@)
    } else if sh == "900"@ {
        Some("#78350f"@)
    } else if sh == "950"@ {
        Some("#451a03"@)
    } else {
        None
    }
}

fn shade_amber_exec(sh: &Vec<char>) -> (r: Option<String>)
    ensures
        match r {
            Some(s) => shade_amber(sh@) == Some(s@),
            None => shade_amber(sh@) is None,
        },
{
    if chars_eq_str(sh, "50") {
        Some(String::from_str("#fffbeb"))
    } else if chars_eq_str(sh, "100") {
        Some(String::from_str("#fef3c7"))
    } else if chars_eq_str(sh, "200") {
        Some(String::from_str("#fde68a"))
    } else if chars_eq_str(sh, "300") {
        Some(String::from_str("#fcd34d"))
    } else if chars_eq_str(sh, "400") {
        Some(String::from_str("#fbbf24"))
    } else if chars_eq_str(sh, "500") {
        Some(String::from_str("#f59e0b"))
    } else if chars_eq_str(sh, "600") {
        Some(String::from_str("#d97706"))
    } else if chars_eq_str(sh, "700") {
        Some(String::from_str("#b45309"))
    } else if chars_eq_str(sh, "800") {
        Some(String::from_str("#92400e"))
    } else if chars_eq_str(sh, "900") {
        Some(String::from_str("#78350f"))
    } else if chars_eq_str(sh, "950") {
        Some(String::from_str("#451a03"))
    } else {
        None
    }
}

pub open spec fn shade_blue(sh: Seq<char>) -> Option<Seq<char>> {
    if sh == "50"@ {
        Some("#eff6ff"@)
    } else if sh == "100"@ {
        Some("#dbeafe"@)
    } else if sh == "200"@ {
        Some("#bfdbfe"@)
    } else if sh == "300"@ {
        Some("#93c5fd"@)
    } else if sh == "400"@ {
        Some("#60a5fa"@)
    } else if sh == "500"@ {
        Some("#3b82f6"@)
    } else if sh == "600"@ {
        Some("#2563eb"@)
    } else if sh == "700"@ {
        Some("#1d4ed8"@)
    } else if sh == "800"@ {
        Some("#1e40af"@)
    } else if sh == "900"@ {
        Some("#1e3a8a"@)
    } else if sh == "950"@ {
        Some("#172554"@)
    } else {
        None
    }
}

fn shade_blue_exec(sh: &Vec<char>) -> (r: Option<String>)
    ensures
        match r {
            Some(s) => shade_blue(sh@) == Some(s@),
            None => shade_blue(sh@) is None,
        },
{
    if chars_eq_str(sh, "50") {
        Some(String::from_str("#eff6ff"))
    } else if chars_eq_str(sh, "100") {
        Some(String::from_str("#dbeafe"))
    } else if chars_eq_str(sh, "200") {
        Some(String::from_str("#bfdbfe"))
    } else if chars_eq_str(sh, "300") {
        Some(String::from_str("#93c5fd"))
    } else if chars_eq_str(sh, "400") {
        Some(String::from_str("#60a5fa"))
    } else if chars_eq_str(sh, "500") {
        Some(String::from_str("#3b82f6"))
    } else if chars_eq_str(sh, "600") {
        Some(String::from_str("#2563eb"))
    } else if chars_eq_str(sh, "700") {
        Some(String::from_str("#1d4ed8"))
    } else if chars_eq_str(sh, "800") {
        Some(String::from_str("#1e40af"))
    } else if chars_eq_str(sh, "900") {
        Some(String::from_str("#1e3a8a"))
    } else if chars_eq_str(sh, "950") {
        Some(String::from_str("#172554"))
    } else {
        None
    }
}

pub open spec fn shade_lime(sh: Seq<char>) -> Option<Seq<char>> {
    if sh == "50"@ {
        Some("#f7fee7"@)
    } else if sh == "100"@ {
        Some("#ecfccb"@)
    } else if sh == "200"@ {
        Some("#d9f99d"@)
    } else if sh == "300"@ {
        Some("#bef264"@)
    } else if sh == "400"@ {
        Some("#a3e635"@)
    } else if sh == "500"@ {
        Some("#84cc16"@)
    } else if sh == "600"@ {
        Some("#65a30d"@)
    } else if sh == "700"@ {
        Some("#4d7c0f"@)
    } else if sh == "800"@ {
        Some("#3f6212"@)
    } else if sh == "900"@ {
        Some("#365314"@)
    } else if sh == "950"@ {
        Some("#1a2e05"@)
    } else {
        None
    }
}

fn shade_lime_exec(sh: &Vec<char>) -> (r: Option<String>)
    ensures
        match r {
            Some(s) => shade_lime(sh@) == Some(s@),
            None => shade_lime(sh@) is None,
        },
{
    if chars_eq_str(sh, "50") {
        Some(String::from_str("#f7fee7"))
    } else if chars_eq_str(sh, "100") {
        Some(String::from_str("#ecfccb"))
    } else if chars_eq_str(sh, "200") {
        Some(String::from_str("#d9f99d"))
    } else if chars_eq_str(sh, "300") {
        Some(String::from_str("#bef264"))
    } else if chars_eq_str(sh, "400") {
        Some(String::from_str("#a3e635"))
    } else if chars_eq_str(sh, "500") {
        Some(String::from_str("#84cc16"))
    } else if chars_eq_str(sh, "600") {
        Some(String::from_str("#65a30d"))
    } else if chars_eq_str(sh, "700") {
        Some(String::from_str("#4d7c0f"))
    } else if chars_eq_str(sh, "800") {
        Some(String::from_str("#3f6212"))
    } else if chars_eq_str(sh, "900") {
        Some(String::from_str("#365314"))
    } else if chars_eq_str(sh, "950") {
        Some(String::from_str("#1a2e05"))
    } else {
        None
    }
}

pub open spec fn shade_green(sh: Seq<char>) -> Option<Seq<char>> {
    if sh == "50"@ {
        Some("#f0fdf4"@)
    } else if sh == "100"@ {
        Some("#dcfce7"@)
    } else if sh == "200"@ {
        Some("#bbf7d0"@)
    } else if sh == "300"@ {
        Some("#86efac"@)
    } else if sh == "400"@ {
        Some("#4ade80"@)
    } else if sh == "500"@ {
        Some("#22c55e"@)
    } else if sh == "600"@ {
        Some("#16a34a"@)
    } else if sh == "700"@ {
        Some("#15803d"@)
    } else if sh == "800"@ {
        Some("#166534"@)
    } else if sh == "900"@ {
        Some("#14532d"@)
    } else if sh == "950"@ {
        Some("#052e16"@)
    } else {
        None
    }
}

fn shade_green_exec(sh: &Vec<char>) -> (r: Option<String>)
    ensures
        match r {
            Some(s) => shade_green(sh@) == Some(s@),
            None => shade_green(sh@) is None,
        },
{
    if chars_eq_str(sh, "50") {
        Some(String::from_str("#f0fdf4"))
    } else if chars_eq_str(sh, "100") {
        Some(String::from_str("#dcfce7"))
    } else if chars_eq_str(sh, "200") {
        Some(String::from_str("#bbf7d0"))
    } else if chars_eq_str(sh, "300") {
        Some(String::from_str("#86efac"))
    } else if chars_eq_str(sh, "400") {
        Some(String::from_str("#4ade80"))
    } else if chars_eq_str(sh, "500") {
        Some(String::from_str("#22c55e"))
    } else if chars_eq_str(sh, "600") {
        Some(String::from_str("#16a34a"))
    } else if chars_eq_str(sh, "700") {
        Some(String::from_str("#15803d"))
    } else if chars_eq_str(sh, "800") {
        Some(String::from_str("#166534"))
    } else if chars_eq_str(sh, "900") {
        Some(String::from_str("#14532d"))
    } else if chars_eq_str(sh, "950") {
        Some(String::from_str("#052e16"))
    } else {
        None
    }
}

pub open spec fn shade_emerald(sh: Seq<char>) -> Option<Seq<char>> {
    if sh == "50"@ {
        Some("#ecfdf5"@)
    } else if sh == "100"@ {
        Some("#d1fae5"@)
    } else if sh == "200"@ {
        Some("#a7f3d0"@)
    } else if sh == "300"@ {
        Some("#6ee7b7"@)
    } else if sh == "400"@ {
        Some("#34d399"@)
    } else if sh == "500"@ {
        Some("#10b981"@)
    } else if sh == "600"@ {
        Some("#059669"@)
    } else if sh == "700"@ {
        Some("#047857"@)
    } else if sh == "800"@ {
        Some("#065f46"@)
    } else if sh == "900"@ {
        Some("#064e3b"@)
    } else if sh == "950"@ {
        Some("#022c22"@)
    } else {
        None
    }
}

fn shade_emerald_exec(sh: &Vec<char>) -> (r: Option<String>)
    ensures
        match r {
            Some(s) => shade_emerald(sh@) == Some(s@),
            None => shade_emerald(sh@) is None,
        },
{
    if chars_eq_str(sh, "50") {
        Some(String::from_str("#ecfdf5"))
    } else if chars_eq_str(sh, "100") {
        Some(String::from_str("#d1fae5"))
    } else if chars_eq_str(sh, "200") {
        Some(String::from_str("#a7f3d0"))
    } else if chars_eq_str(sh, "300") {
        Some(String::from_str("#6ee7b7"))
    } else if chars_eq_str(sh, "400") {
        Some(String::from_str("#34d399"))
    } else if chars_eq_str(sh, "500") {
        Some(String::from_str("#10b981"))
    } else if chars_eq_str(sh, "600") {
        Some(String::from_str("#059669"))
    } else if chars_eq_str(sh, "700") {
        Some(String::from_str("#047857"))
    } else if chars_eq_str(sh, "800") {
        Some(String::from_str("#065f46"))
    } else if chars_eq_str(sh, "900") {
        Some(String::from_str("#064e3b"))
    } else if chars_eq_str(sh, "950") {
        Some(String::from_str("#022c22"))
    } else {
        None
    }
}

pub open spec fn shade_teal(sh: Seq<char>) -> Option<Seq<char>> {
    if sh == "50"@ {
        Some("#f0fdfa"@)
    } else if sh == "100"@ {
        Some("#ccfbf1"@)
    } else if sh == "200"@ {
        Some("#99f6e4"@)
    } else if sh == "300"@ {
        Some("#5eead4"@)
    } else if sh == "400"@ {
        Some("#2dd4bf"@)
    } else if sh == "500"@ {
        Some("#14b8a6"@)
    } else if sh == "600"@ {
        Some("#0d9488"@)
    } else if sh == "700"@ {
        Some("#0f766e"@)
    } else if sh == "800"@ {
        Some("#115e59"@)
    } else if sh == "900"@ {
        Some("#134e4a"@)
    } else if sh == "950"@ {
        Some("#042f2e"@)
    } else {
        None
    }
}

fn shade_teal_exec(sh: &Vec<char>) -> (r: Option<String>)
    ensures
        match r {
            Some(s) => shade_teal(sh@) == Some(s@),
            None => shade_teal(sh@) is None,
        },
{
    if chars_eq_str(sh, "50") {
        Some(String::from_str("#f0fdfa"))
    } else if chars_eq_str(sh, "100") {
        Some(String::from_str("#ccfbf1"))
    } else if chars_eq_str(sh, "200") {
        Some(String::from_str("#99f6e4"))
    } else if chars_eq_str(sh, "300") {
        Some(String::from_str("#5eead4"))
    } else if chars_eq_str(sh, "400") {
        Some(String::from_str("#2dd4bf"))
    } else if chars_eq_str(sh, "500") {
        Some(String::from_str("#14b8a6"))
    } else if chars_eq_str(sh, "600") {
        Some(String::from_str("#0d9488"))
    } else if chars_eq_str(sh, "700") {
        Some(String::from_str("#0f766e"))
    } else if chars_eq_str(sh, "800") {
        Some(String::from_str("#115e59"))
    } else if chars_eq_str(sh, "900") {
        Some(String::from_str("#134e4a"))
    } else if chars_eq_str(sh, "950") {
        Some(String::from_str("#042f2e"))
    } else {
        None
    }
}

pub open spec fn shade_cyan(sh: Seq<char>) -> Option<Seq<char>> {
    if sh == "50"@ {
        Some("#ecfeff"@)
    } else if sh == "100"@ {
        Some("#cffafe"@)
    } else if sh == "200"@ {
        Some("#a5f3fc"@)
    } else if sh == "300"@ {
        Some("#67e8f9"@)
    } else if sh == "400"@ {
        Some("#22d3ee"@)
    } else if sh == "500"@ {
        Some("#06b6d4"@)
    } else if sh == "600"@ {
        Some("#0891b2"@)
    } else if sh == "700"@ {
        Some("#0e7490"@)
    } else if sh == "800"@ {
        Some("#155e75"@)
    } else if sh == "900"@ {
        Some("#164e63"@)
    } else if sh == "950"@ {
        Some("#083344"@)
    } else {
        None
    }
}

fn shade_cyan_exec(sh: &Vec<char>) -> (r: Option<String>)
    ensures
        match r {
            Some(s) => shade_cyan(sh@) == Some(s@),
            None => shade_cyan(sh@) is None,
        },
{
    if chars_eq_str(sh, "50") {
        Some(String::from_str("#ecfeff"))
    } else if chars_eq_str(sh, "100") {
        Some(String::from_str("#cffafe"))
    } else if chars_eq_str(sh, "200") {
        Some(String::from_str("#a5f3fc"))
    } else if chars_eq_str(sh, "300") {
        Some(String::from_str("#67e8f9"))
    } else if chars_eq_str(sh, "400") {
        Some(String::from_str("#22d3ee"))
    } else if chars_eq_str(sh, "500") {
        Some(String::from_str("#06b6d4"))
    } else if chars_eq_str(sh, "600") {
        Some(String::from_str("#0891b2"))
    } else if chars_eq_str(sh, "700") {
        Some(String::from_str("#0e7490"))
    } else if chars_eq_str(sh, "800") {
        Some(String::from_str("#155e75"))
    } else if chars_eq_str(sh, "900") {
        Some(String::from_str("#164e63"))
    } else if chars_eq_str(sh, "950") {
        Some(String::from_str("#083344"))
    } else {
        None
    }
}

pub open spec fn shade_sky(sh: Seq<char>) -> Option<Seq<char>> {
    if sh == "50"@ {
        Some("#f0f9ff"@)
    } else if sh == "100"@ {
        Some("#e0f2fe"@)
    } else if sh == "200"@ {
        Some("#bae6fd"@)
    } else if sh == "300"@ {
        Some("#7dd3fc"@)
    } else if sh == "400"@ {
        Some("#38bdf8"@)
    } else if sh == "500"@ {
        Some("#0ea5e9"@)
    } else if sh == "600"@ {
        Some("#0284c7"@)
    } else if sh == "700"@ {
        Some("#0369a1"@)
    } else if sh == "800"@ {
        Some("#075985"@)
    } else if sh == "900"@ {
        Some("#0c4a6e"@)
    } else if sh == "950"@ {
        Some("#082f49"@)
    } else {
        None
    }
}

fn shade_sky_exec(sh: &Vec<char>) -> (r: Option<String>)
    ensures
        match r {
            Some(s) => shade_sky(sh@) == Some(s@),
            None => shade_sky(sh@) is None,
        },
{
    if chars_eq_str(sh, "50") {
        Some(String::from_str("#f0f9ff"))
    } else if chars_eq_str(sh, "100") {
        Some(String::from_str("#e0f2fe"))
    } else if chars_eq_str(sh, "200") {
        Some(String::from_str("#bae6fd"))
    } else if chars_eq_str(sh, "300") {
        Some(String::from_str("#7dd3fc"))
    } else if chars_eq_str(sh, "400") {
        Some(String::from_str("#38bdf8"))
    } else if chars_eq_str(sh, "500") {
        Some(String::from_str("#0ea5e9"))
    } else if chars_eq_str(sh, "600") {
        Some(String::from_str("#0284c7"))
    } else if chars_eq_str(sh, "700") {
        Some(String::from_str("#0369a1"))
    } else if chars_eq_str(sh, "800") {
        Some(String::from_str("#075985"))
    } else if chars_eq_str(sh, "900") {
        Some(String::from_str("#0c4a6e"))
    } else if chars_eq_str(sh, "950") {
        Some(String::from_str("#082f49"))
    } else {
        None
    }
}

pub open spec fn shade_indigo(sh: Seq<char>) -> Option<Seq<char>> {
    if sh == "50"@ {
        Some("#eef2ff"@)
    } else if sh == "100"@ {
        Some("#e0e7ff"@)
    } else if sh == "200"@ {
        Some("#c7d2fe"@)
    } else if sh == "300"@ {
        Some("#a5b4fc"@)
    } else if sh == "400"@ {
        Some("#818cf8"@)
    } else if sh == "500"@ {
        Some("#6366f1"@)
    } else if sh == "600"@ {
        Some("#4f46e5"@)
    } else if sh == "700"@ {
        Some("#4338ca"@)
    } else if sh == "800"@ {
        Some("#3730a3"@)
    } else if sh == "900"@ {
        Some("#312e81"@)
    } else if sh == "950"@ {
        Some("#1e1b4b"@)
    } else {
        None
    }
}

fn shade_indigo_exec(sh: &Vec<char>) -> (r: Option<String>)
    ensures
        match r {
            Some(s) => shade_indigo(sh@) == Some(s@),
            None => shade_indigo(sh@) is None,
        },
{
    if chars_eq_str(sh, "50") {
        Some(String::from_str("#eef2ff"))
    } else if chars_eq_str(sh, "100") {
        Some(String::from_str("#e0e7ff"))
    } else if chars_eq_str(sh, "200") {
        Some(String::from_str("#c7d2fe"))
    } else if chars_eq_str(sh, "300") {
        Some(String::from_str("#a5b4fc"))
    } else if chars_eq_str(sh, "400") {
        Some(String::from_str("#818cf8"))
    } else if chars_eq_str(sh, "500") {
        Some(String::from_str("#6366f1"))
    } else if chars_eq_str(sh, "600") {
        Some(String::from_str("#4f46e5"))
    } else if chars_eq_str(sh, "700") {
        Some(String::from_str("#4338ca"))
    } else if chars_eq_str(sh, "800") {
        Some(String::from_str("#3730a3"))
    } else if chars_eq_str(sh, "900") {
        Some(String::from_str("#312e81"))
    } else if chars_eq_str(sh, "950") {
        Some(String::from_str("#1e1b4b"))
    } else {
        None
    }
}

pub open spec fn shade_violet(sh: Seq<char>) -> Option<Seq<char>> {
    if sh == "50"@ {
        Some("#f5f3ff"@)
    } else if sh == "100"@ {
        Some("#ede9fe"@)
    } else if sh == "200"@ {
        Some("#ddd6fe"@)
    } else if sh == "300"@ {
        Some("#c4b5fd"@)
    } else if sh == "400"@ {
        Some("#a78bfa"@)
    } else if sh == "500"@ {
        Some("#8b5cf6"@)
    } else if sh == "600"@ {
        Some("#7c3aed"@)
    } else if sh == "700"@ {
        Some("#6d28d9"@)
    } else if sh == "800"@ {
        Some("#5b21b6"@)
    } else if sh == "900"@ {
        Some("#4c1d95"@)
    } else if sh == "950"@ {
        Some("#2e1065"@)
    } else {
        None
    }
}

fn shade_violet_exec(sh: &Vec<char>) -> (r: Option<String>)
    ensures
        match r {
            Some(s) => shade_violet(sh@) == Some(s@),
            None => shade_violet(sh@) is None,
        },
{
    if chars_eq_str(sh, "50") {
        Some(String::from_str("#f5f3ff"))
    } else if chars_eq_str(sh, "100") {
        Some(String::from_str("#ede9fe"))
    } else if chars_eq_str(sh, "200") {
        Some(String::from_str("#ddd6fe"))
    } else if chars_eq_str(sh, "300") {
        Some(String::from_str("#c4b5fd"))
    } else if chars_eq_str(sh, "400") {
        Some(String::from_str("#a78bfa"))
    } else if chars_eq_str(sh, "500") {
        Some(String::from_str("#8b5cf6"))
    } else if chars_eq_str(sh, "600") {
        Some(String::from_str("#7c3aed"))
    } else if chars_eq_str(sh, "700") {
        Some(String::from_str("#6d28d9"))
    } else if chars_eq_str(sh, "800") {
        Some(String::from_str("#5b21b6"))
    } else if chars_eq_str(sh, "900") {
        Some(String::from_str("#4c1d95"))
    } else if chars_eq_str(sh, "950") {
        Some(String::from_str("#2e1065"))
    } else {
        None
    }
}

pub open spec fn shade_purple(sh: Seq<char>) -> Option<Seq<char>> {
    if sh == "50"@ {
        Some("#faf5ff"@)
    } else if sh == "100"@ {
        Some("#f3e8ff"@)
    } else if sh == "200"@ {
        Some("#e9d5ff"@)
    } else if sh == "300"@ {
        Some("#d8b4fe"@)
    } else if sh == "400"@ {
        Some("#c084fc"@)
    } else if sh == "500"@ {
        Some("#a855f7"@)
    } else if sh == "600"@ {
        Some("#9333ea"@)
    } else if sh == "700"@ {
        Some("#7e22ce"@)
    } else if sh == "800"@ {
        Some("#6b21a8"@)
    } else if sh == "900"@ {
        Some("#581c87"@)
    } else if sh == "950"@ {
        Some("#3b0764"@)
    } else {
        None
    }
}

fn shade_purple_exec(sh: &Vec<char>) -> (r: Option<String>)
    ensures
        match r {
            Some(s) => shade_purple(sh@) == Some(s@),
            None => shade_purple(sh@) is None,
        },
{
    if chars_eq_str(sh, "50") {
        Some(String::from_str("#faf5ff"))
    } else if chars_eq_str(sh, "100") {
        Some(String::from_str("#f3e8ff"))
    } else if chars_eq_str(sh, "200") {
        Some(String::from_str("#e9d5ff"))
    } else if chars_eq_str(sh, "300") {
        Some(String::from_str("#d8b4fe"))
    } else if chars_eq_str(sh, "400") {
        Some(String::from_str("#c084fc"))
    } else if chars_eq_str(sh, "500") {
        Some(String::from_str("#a855f7"))
    } else if chars_eq_str(sh, "600") {
        Some(String::from_str("#9333ea"))
    } else if chars_eq_str(sh, "700") {
        Some(String::from_str("#7e22ce"))
    } else if chars_eq_str(sh, "800") {
        Some(String::from_str("#6b21a8"))
    } else if chars_eq_str(sh, "900") {
        Some(String::from_str("#581c87"))
    } else if chars_eq_str(sh, "950") {
        Some(String::from_str("#3b0764"))
    } else {
        None
    }
}

pub open spec fn shade_fuchsia(sh: Seq<char>) -> Option<Seq<char>> {
    if sh == "50"@ {
        Some("#fdf4ff"@)
    } else if sh == "100"@ {
        Some("#fae8ff"@)
    } else if sh == "200"@ {
        Some("#f5d0fe"@)
    } else if sh == "300"@ {
        Some("#f0abfc"@)
    } else if sh == "400"@ {
        Some("#e879f9"@)
    } else if sh == "500"@ {
        Some("#d946ef"@)
    } else if sh == "600"@ {
        Some("#c026d3"@)
    } else if sh == "700"@ {
        Some("#a21caf"@)
    } else if sh == "800"@ {
        Some("#86198f"@)
    } else if sh == "900"@ {
        Some("#701a75"@)
    } else if sh == "950"@ {
        Some("#4a044e"@)
    } else {
        None
    }
}

fn shade_fuchsia_exec(sh: &Vec<char>) -> (r: Option<String>)
    ensures
        match r {
            Some(s) => shade_fuchsia(sh@) == Some(s@),
            None => shade_fuchsia(sh@) is None,
        },
{
    if chars_eq_str(sh, "50") {
        Some(String::from_str("#fdf4ff"))
    } else if chars_eq_str(sh, "100") {
        Some(String::from_str("#fae8ff"))
    } else if chars_eq_str(sh, "200") {
        Some(String::from_str("#f5d0fe"))
    } else if chars_eq_str(sh, "300") {
        Some(String::from_str("#f0abfc"))
    } else if chars_eq_str(sh, "400") {
        Some(String::from_str("#e879f9"))
    } else if chars_eq_str(sh, "500") {
        Some(String::from_str("#d946ef"))
    } else if chars_eq_str(sh, "600") {
        Some(String::from_str("#c026d3"))
    } else if chars_eq_str(sh, "700") {
        Some(String::from_str("#a21caf"))
    } else if chars_eq_str(sh, "800") {
        Some(String::from_str("#86198f"))
    } else if chars_eq_str(sh, "900") {
        Some(String::from_str("#701a75"))
    } else if chars_eq_str(sh, "950") {
        Some(String::from_str("#4a044e"))
    } else {
        None
    }
}

pub open spec fn shade_pink(sh: Seq<char>) -> Option<Seq<char>> {
    if sh == "50"@ {
        Some("#fdf2f8"@)
    } else if sh == "100"@ {
        Some("#fce7f3"@)
    } else if sh == "200"@ {
        Some("#fbcfe8"@)
    } else if sh == "300"@ {
        Some("#f9a8d4"@)
    } else if sh == "400"@ {
        Some("#f472b6"@)
    } else if sh == "500"@ {
        Some("#ec4899"@)
    } else if sh == "600"@ {
        Some("#db2777"@)
    } else if sh == "700"@ {
        Some("#be185d"@)
    } else if sh == "800"@ {
        Some("#9d174d"@)
    } else if sh == "900"@ {
        Some("#831843"@)
    } else if sh == "950"@ {
        Some("#500724"@)
    } else {
        None
    }
}

fn shade_pink_exec(sh: &Vec<char>) -> (r: Option<String>)
    ensures
        match r {
            Some(s) => shade_pink(sh@) == Some(s@),
            None => shade_pink(sh@) is None,
        },
{
    if chars_eq_str(sh, "50") {
        Some(String::from_str("#fdf2f8"))
    } else if chars_eq_str(sh, "100") {
        Some(String::from_str("#fce7f3"))
    } else if chars_eq_str(sh, "200") {
        Some(String::from_str("#fbcfe8"))
    } else if chars_eq_str(sh, "300") {
        Some(String::from_str("#f9a8d4"))
    } else if chars_eq_str(sh, "400") {
        Some(String::from_str("#f472b6"))
    } else if chars_eq_str(sh, "500") {
        Some(String::from_str("#ec4899"))
    } else if chars_eq_str(sh, "600") {
        Some(String::from_str("#db2777"))
    } else if chars_eq_str(sh, "700") {
        Some(String::from_str("#be185d"))
    } else if chars_eq_str(sh, "800") {
        Some(String::from_str("#9d174d"))
    } else if chars_eq_str(sh, "900") {
        Some(String::from_str("#831843"))
    } else if chars_eq_str(sh, "950") {
        Some(String::from_str("#500724"))
    } else {
        None
    }
}

pub open spec fn shade_rose(sh: Seq<char>) -> Option<Seq<char>> {
    if sh == "50"@ {
        Some("#fff1f2"@)
    } else if sh == "100"@ {
        Some("#ffe4e6"@)
    } else if sh == "200"@ {
        Some("#fecdd3"@)
    } else if sh == "300"@ {
        Some("#fda4af"@)
    } else if sh == "400"@ {
        Some("#fb7185"@)
    } else if sh == "500"@ {
        Some("#f43f5e"@)
    } else if sh == "600"@ {
        Some("#e11d48"@)
    } else if sh == "700"@ {
        Some("#be123c"@)
    } else if sh == "800"@ {
        Some("#9f1239"@)
    } else if sh == "900"@ {
        Some("#881337"@)
    } else if sh == "950"@ {
        Some("#4c0519"@)
    } else {
        None
    }
}

fn shade_rose_exec(sh: &Vec<char>) -> (r: Option<String>)
    ensures
        match r {
            Some(s) => shade_rose(sh@) == Some(s@),
            None => shade_rose(sh@) is None,
        },
{
    if chars_eq_str(sh, "50") {
        Some(String::from_str("#fff1f2"))
    } else if chars_eq_str(sh, "100") {
        Some(String::from_str("#ffe4e6"))
    } else if chars_eq_str(sh, "200") {
        Some(String::from_str("#fecdd3"))
    } else if chars_eq_str(sh, "300") {
        Some(String::from_str("#fda4af"))
    } else if chars_eq_str(sh, "400") {
        Some(String::from_str("#fb7185"))
    } else if chars_eq_str(sh, "500") {
        Some(String::from_str("#f43f5e"))
    } else if chars_eq_str(sh, "600") {
        Some(String::from_str("#e11d48"))
    } else if chars_eq_str(sh, "700") {
        Some(String::from_str("#be123c"))
    } else if chars_eq_str(sh, "800") {
        Some(String::from_str("#9f1239"))
    } else if chars_eq_str(sh, "900") {
        Some(String::from_str("#881337"))
    } else if chars_eq_str(sh, "950") {
        Some(String::from_str("#4c0519"))
    } else {
        None
    }
}

/// The palette: a family name and a shade to a hex value.
pub open spec fn palette_spec(name: Seq<char>, sh: Seq<char>) -> Option<Seq<char>> {
    if name == "slate"@ {
        shade_slate(sh)
    } else if name == "gray"@ {
        shade_gray(sh)
    } else if name == "zinc"@ {
        shade_zinc(sh)
    } else if name == "neutral"@ {
        shade_neutral(sh)
    } else if name == "stone"@ {
        shade_stone(sh)
    } else if name == "red"@ {
        shade_red(sh)
    } else if name == "orange"@ {
        shade_orange(sh)
    } else if name == "amber"@ {
        shade_amber(sh)
    } else if name == "blue"@ {
        shade_blue(sh)
    } else if name == "lime"@ {
        shade_lime(sh)
    } else if name == "green"@ {
        shade_green(sh)
    } else if name == "emerald"@ {
        shade_emerald(sh)
    } else if name == "teal"@ {
        shade_teal(sh)
    } else if name == "cyan"@ {
        shade_cyan(sh)
    } else if name == "sky"@ {
        shade_sky(sh)
    } else if name == "indigo"@ {
        shade_indigo(sh)
    } else if name == "violet"@ {
        shade_violet(sh)
    } else if name == "purple"@ {
        shade_purple(sh)
    } else if name == "fuchsia"@ {
        shade_fuchsia(sh)
    } else if name == "pink"@ {
        shade_pink(sh)
    } else if name == "rose"@ {
        shade_rose(sh)
    } else {
        None
    }
}

pub fn palette_lookup(name: &Vec<char>, sh: &Vec<char>) -> (r: Option<String>)
    ensures
        match r {
            Some(s) => palette_spec(name@, sh@) == Some(s@),
            None => palette_spec(name@, sh@) is None,
        },
{
    if chars_eq_str(name, "slate") {
        shade_slate_exec(sh)
    } else if chars_eq_str(name, "gray") {
        shade_gray_exec(sh)
    } else if chars_eq_str(name, "zinc") {
        shade_zinc_exec(sh)
    } else if chars_eq_str(name, "neutral") {
        shade_neutral_exec(sh)
    } else if chars_eq_str(name, "stone") {
        shade_stone_exec(sh)
    } else if chars_eq_str(name, "red") {
        shade_red_exec(sh)
    } else if chars_eq_str(name, "orange") {
        shade_orange_exec(sh)
    } else if chars_eq_str(name, "amber") {
        shade_amber_exec(sh)
    } else if chars_eq_str(name, "blue") {
        shade_blue_exec(sh)
    } else if chars_eq_str(name, "lime") {
        shade_lime_exec(sh)
    } else if chars_eq_str(name, "green") {
        shade_green_exec(sh)
    } else if chars_eq_str(name, "emerald") {
        shade_emerald_exec(sh)
    } else if chars_eq_str(name, "teal") {
        shade_teal_exec(sh)
    } else if chars_eq_str(name, "cyan") {
        shade_cyan_exec(sh)
    } else if chars_eq_str(name, "sky") {
        shade_sky_exec(sh)
    } else if chars_eq_str(name, "indigo") {
        shade_indigo_exec(sh)
    } else if chars_eq_str(name, "violet") {
        shade_violet_exec(sh)
    } else if chars_eq_str(name, "purple") {
        shade_purple_exec(sh)
    } else if chars_eq_str(name, "fuchsia") {
        shade_fuchsia_exec(sh)
    } else if chars_eq_str(name, "pink") {
        shade_pink_exec(sh)
    } else if chars_eq_str(name, "rose") {
        shade_rose_exec(sh)
    } else {
        None
    }
}

/// A `color-shade` token resolved against the palette alone: exactly two
/// hyphen-separated pieces, looked up as family and shade.
pub open spec fn tailwind_color_spec(cs: Seq<char>) -> Option<Seq<char>> {
    let parts = split_char_spec(cs, '-');
    if parts.len() != 2 {
        None
    } else {
        palette_spec(parts[0], parts[1])
    }
}

pub fn get_tailwind_color(color_shade: &str) -> (r: Option<String>)
    ensures
        match r {
            Some(s) => tailwind_color_spec(color_shade@) == Some(s@),
            None => tailwind_color_spec(color_shade@) is None,
        },
{
    let cs = str_to_chars(color_shade);
    let parts = split_char(&cs, '-');
    proof {
        assert(parts.deep_view().len() == parts@.len());
    }
    if parts.len() != 2 {
        return None;
    }
    proof {
        assert(parts.deep_view()[0] =~= parts@[0]@);
        assert(parts.deep_view()[1] =~= parts@[1]@);
    }
    palette_lookup(&parts[0], &parts[1])
}

/// A color token resolved against the palette, then the variable table: the
/// token itself, then under the `colors.` and `color.` namespaces, then the
/// piece before the first hyphen in the same way.
pub open spec fn color_with_vars_spec(cs: Seq<char>, vars: Seq<(Seq<char>, Seq<char>)>) -> Option<
    Seq<char>,
> {
    if tailwind_color_spec(cs) is Some {
        tailwind_color_spec(cs)
    } else if m_contains(vars, cs) {
        Some(m_val(vars, cs))
    } else if m_contains(vars, "colors."@ + cs) {
        Some(m_val(vars, "colors."@ + cs))
    } else if m_contains(vars, "color."@ + cs) {
        Some(m_val(vars, "color."@ + cs))
    } else {
        let parts = split_char_spec(cs, '-');
        let name = parts[0];
        if m_contains(vars, name) {
            Some(m_val(vars, name))
        } else if m_contains(vars, "color."@ + name) {
            Some(m_val(vars, "color."@ + name))
        } else {
            None
        }
    }
}

pub fn get_tailwind_color_with_vars(color_shade: &str, vars: &OrdMap<String>) -> (r: Option<
    String,
>)
    requires
        m_wf(vars@),
    ensures
        match r {
            Some(s) => color_with_vars_spec(color_shade@, vars@) == Some(s@),
            None => color_with_vars_spec(color_shade@, vars@) is None,
        },
{
    match get_tailwind_color(color_shade) {
        Some(hex) => {
            return Some(hex);
        },
        None => {},
    }
    match vars.get(color_shade) {
        Some(v) => {
            return Some(v.clone());
        },
        None => {},
    }
    let cs = str_to_chars(color_shade);
    let mut k1: Vec<char> = Vec::new();
    push_str_chars(&mut k1, "colors.");
    crate::strutil::push_chars(&mut k1, &cs);
    let k1s = chars_to_string(&k1);
    match vars.get(k1s.as_str()) {
        Some(v) => {
            return Some(v.clone());
        },
        None => {},
    }
    let mut k2: Vec<char> = Vec::new();
    push_str_chars(&mut k2, "color.");
    crate::strutil::push_chars(&mut k2, &cs);
    let k2s = chars_to_string(&k2);
    match vars.get(k2s.as_str()) {
        Some(v) => {
            return Some(v.clone());
        },
        None => {},
    }
    let parts = split_char(&cs, '-');
    proof {
        assert(parts@.len() >= 1);
        assert(parts.deep_view()[0] =~= parts@[0]@);
    }
    let name = chars_to_string(&parts[0]);
    match vars.get(name.as_str()) {
        Some(v) => {
            return Some(v.clone());
        },
        None => {},
    }
    let mut k3: Vec<char> = Vec::new();
    push_str_chars(&mut k3, "color.");
    push_str_chars(&mut k3, name.as_str());
    let k3s = chars_to_string(&k3);
    match vars.get(k3s.as_str()) {
        Some(v) => {
            return Some(v.clone());
        },
        None => {},
    }
    None
}

} // verus!
