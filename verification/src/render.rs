//! The declaration renderers: a closed-world translator from the registry's
//! C-style type declarations to target-language declarations, and the
//! profile-aware renderer for constants.

use vstd::prelude::*;
use crate::attrs::ParseError;
use crate::model::{ApiGroup, GlEnum, GlEnumV, GlType, GlTypeV};
use crate::text::{
    chars_eq_str, chars_of, copy_range, join_comma_space, lemma_join_push, split_at_char,
    split_commas, split_ws, split_ws_chars, str_eq, string_of,
};

verus! {

broadcast use vstd::string::group_string_axioms;

/// One target-language alias declaration.
pub open spec fn alias_line(new: Seq<char>, old: Seq<char>) -> Seq<char> {
    "pub type "@ + new + " = "@ + old + ";"@
}

/// The opening of an optional callback type in the target language.
pub open spec fn opt_abi_fn() -> Seq<char> {
    "Option<extern \"system\" fn"@
}

/// The opening of an optional callback type whose calls are unchecked.
pub open spec fn opt_unchecked_abi_fn() -> Seq<char> {
    "Option<unsafe extern \"system\" fn"@
}

/// The parameter list shared by the three standard debug callbacks.
pub open spec fn debug_callback_params() -> Seq<char> {
    "(source: GLenum, gltype: GLenum, id: GLuint, severity: GLenum, length: GLsizei, message: *const GLchar, userParam: *mut c_void)>"@
}

/// The parameter list of the AMD debug callback.
pub open spec fn amd_callback_params() -> Seq<char> {
    "(id: GLuint, category: GLenum, severity: GLenum, length: GLsizei, message: *const GLchar, userParam: *mut c_void)>"@
}

/// The one known function-pointer typedef for the standard debug callback.
pub open spec fn sig_debugproc() -> Seq<char> {
    "typedef void (* GLDEBUGPROC)(GLenum source,GLenum type,GLuint id,GLenum severity,GLsizei length,const GLchar *message,const void *userParam);"@
}

/// The one known function-pointer typedef for the ARB debug callback.
pub open spec fn sig_debugproc_arb() -> Seq<char> {
    "typedef void (* GLDEBUGPROCARB)(GLenum source,GLenum type,GLuint id,GLenum severity,GLsizei length,const GLchar *message,const void *userParam);"@
}

/// The one known function-pointer typedef for the KHR debug callback.
pub open spec fn sig_debugproc_khr() -> Seq<char> {
    "typedef void (* GLDEBUGPROCKHR)(GLenum source,GLenum type,GLuint id,GLenum severity,GLsizei length,const GLchar *message,const void *userParam);"@
}

/// The one known function-pointer typedef for the AMD debug callback.
pub open spec fn sig_debugproc_amd() -> Seq<char> {
    "typedef void (* GLDEBUGPROCAMD)(GLuint id,GLenum category,GLenum severity,GLsizei length,const GLchar *message,void *userParam);"@
}

/// The one known no-argument vendor callback typedef.
pub open spec fn sig_vulkanproc_nv() -> Seq<char> {
    "typedef void (* GLVULKANPROCNV)(void);"@
}

/// The closed enumeration of known function-pointer typedefs: each is
/// matched by exact full-text comparison and mapped to a named optional
/// callback type; any other text is a translation violation.
pub open spec fn fn_ptr_render(s: Seq<char>) -> Option<Seq<char>> {
    if s == sig_debugproc() {
        Some(alias_line("GLDEBUGPROC"@, opt_unchecked_abi_fn() + debug_callback_params()))
    } else if s == sig_debugproc_arb() {
        Some(alias_line("GLDEBUGPROCARB"@, opt_abi_fn() + debug_callback_params()))
    } else if s == sig_debugproc_khr() {
        Some(alias_line("GLDEBUGPROCKHR"@, opt_abi_fn() + debug_callback_params()))
    } else if s == sig_debugproc_amd() {
        Some(alias_line("GLDEBUGPROCAMD"@, opt_abi_fn() + amd_callback_params()))
    } else if s == sig_vulkanproc_nv() {
        Some(alias_line("GLVULKANPROCNV"@, opt_abi_fn() + "()>"@))
    } else {
        None
    }
}

/// The fixed lookup table from known primitive spellings to target
/// primitive names.
pub open spec fn primitive_target(w: Seq<char>) -> Option<Seq<char>> {
    if w == "khronos_int8_t"@ {
        Some("i8"@)
    } else if w == "khronos_uint8_t"@ {
        Some("u8"@)
    } else if w == "khronos_int16_t"@ {
        Some("i16"@)
    } else if w == "khronos_uint16_t"@ {
        Some("u16"@)
    } else if w == "khronos_int32_t"@ {
        Some("i32"@)
    } else if w == "khronos_uint32_t"@ {
        Some("u32"@)
    } else if w == "khronos_int64_t"@ {
        Some("i64"@)
    } else if w == "khronos_uint64_t"@ {
        Some("u64"@)
    } else if w == "khronos_float_t"@ {
        Some("c_float"@)
    } else if w == "khronos_intptr_t"@ {
        Some("isize"@)
    } else if w == "khronos_ssize_t"@ {
        Some("isize"@)
    } else if w == "GLintptr"@ {
        Some("GLintptr"@)
    } else if w == "double"@ {
        Some("c_double"@)
    } else if w == "int"@ {
        Some("c_int"@)
    } else if w == "char"@ {
        Some("c_char"@)
    } else {
        None
    }
}

/// The declaration a typedef's text translates to: the text is split on
/// whitespace after stripping the trailing `;`, the first word must be the
/// typedef keyword, the last word names the new type, and the middle words
/// are classified by the closed vocabulary; `None` is a translation
/// violation.
pub open spec fn typedef_render(s: Seq<char>) -> Option<Seq<char>> {
    if s.len() == 0 || s[s.len() - 1] != ';' {
        None
    } else {
        let words = split_ws(s.subrange(0, s.len() - 1));
        if words.len() < 3 || words[0] != "typedef"@ {
            None
        } else {
            let new = words[words.len() - 1];
            let mid = words.subrange(1, words.len() - 1);
            if mid[0] == "unsigned"@ {
                if mid.len() < 2 {
                    None
                } else if mid[1] == "int"@ {
                    Some(alias_line(new, "c_uint"@))
                } else if mid[1] == "char"@ {
                    Some(alias_line(new, "c_uchar"@))
                } else if mid[1] == "short"@ {
                    Some(alias_line(new, "c_ushort"@))
                } else {
                    None
                }
            } else if mid[0] == "void"@ {
                if mid.len() == 1 {
                    Some(alias_line(new, "c_void"@))
                } else if mid[1] == "*"@ {
                    Some(alias_line(new, "*mut c_void"@))
                } else if mid[1] == "(*"@ {
                    fn_ptr_render(s)
                } else {
                    None
                }
            } else if mid[0] == "struct"@ {
                if mid.len() >= 3 && mid[1] == "__GLsync"@ && mid[2] == "*"@ {
                    Some("pub struct __GLsync{ _priv: u8 }"@ + alias_line(new, "*mut GLsync"@))
                } else {
                    None
                }
            } else {
                match primitive_target(mid[0]) {
                    Some(old) => Some(alias_line(new, old)),
                    None => None,
                }
            }
        }
    }
}

/// The declaration an opaque struct's text translates to: an empty struct
/// carrying only the parsed name.
pub open spec fn struct_render(s: Seq<char>) -> Option<Seq<char>> {
    if s.len() == 0 {
        None
    } else {
        let words = split_ws(s.subrange(0, s.len() - 1));
        if words.len() >= 2 && words[0] == "struct"@ {
            Some("pub struct "@ + words[1] + "{ _priv: u8 }"@)
        } else {
            None
        }
    }
}

/// The one known platform-conditional declaration text.
pub open spec fn conditional_source() -> Seq<char> {
    "#ifdef __APPLE__\r\ntypedef void *GLhandleARB;\r\n#else\r\ntypedef unsigned int GLhandleARB;\r\n#endif"@
}

/// The opening of a platform gate in the target language.
pub open spec fn platform_gate() -> Seq<char> {
    "#[cfg("@
}

/// The two platform-gated alternative typedefs the conditional declaration
/// renders as.
pub open spec fn conditional_render_out() -> Seq<char> {
    platform_gate() + "any(target_os=\"macos\", target_os=\"ios\"))]pub type GLhandleARB = *mut c_void;"@
        + platform_gate() + "not(any(target_os=\"macos\", target_os=\"ios\")))]pub type GLhandleARB = c_uint;"@
}

/// The target-language declaration a type entry translates to, or `None`
/// for a translation violation.
pub open spec fn render_type(t: GlTypeV) -> Option<Seq<char>> {
    match t {
        GlTypeV::Typedef(s) => typedef_render(s),
        GlTypeV::Struct(s) => struct_render(s),
        GlTypeV::IfDef(s) => if s == conditional_source() {
            Some(conditional_render_out())
        } else {
            None
        },
    }
}

/// Builds one alias declaration.
fn build_alias_line(new: &Vec<char>, old: &str) -> (r: String)
    ensures
        r@ == alias_line(new@, old@),
{
    let mut o = String::new();
    o.append("pub type ");
    o.append(string_of(new).as_str());
    o.append(" = ");
    o.append(old);
    o.append(";");
    proof {
        assert(o@ =~= alias_line(new@, old@));
    }
    o
}

/// Translates one of the five known function-pointer typedefs, by exact
/// full-text comparison; anything else is a translation violation.
fn render_fn_ptr(s: &str) -> (r: Result<String, ParseError>)
    ensures
        match r {
            Ok(o) => fn_ptr_render(s@) == Some(o@),
            Err(_) => fn_ptr_render(s@) is None,
        },
{
    let debug_params =
        "(source: GLenum, gltype: GLenum, id: GLuint, severity: GLenum, length: GLsizei, message: *const GLchar, userParam: *mut c_void)>";
    let amd_params =
        "(id: GLuint, category: GLenum, severity: GLenum, length: GLsizei, message: *const GLchar, userParam: *mut c_void)>";
    if str_eq(
        s,
        "typedef void (* GLDEBUGPROC)(GLenum source,GLenum type,GLuint id,GLenum severity,GLsizei length,const GLchar *message,const void *userParam);",
    ) {
        let mut o = String::new();
        o.append("pub type ");
        o.append("GLDEBUGPROC");
        o.append(" = ");
        o.append("Option<unsafe extern \"system\" fn");
        o.append(debug_params);
        o.append(";");
        proof {
            assert(o@ =~= alias_line(
                "GLDEBUGPROC"@,
                opt_unchecked_abi_fn() + debug_callback_params(),
            ));
        }
        Ok(o)
    } else if str_eq(
        s,
        "typedef void (* GLDEBUGPROCARB)(GLenum source,GLenum type,GLuint id,GLenum severity,GLsizei length,const GLchar *message,const void *userParam);",
    ) {
        let mut o = String::new();
        o.append("pub type ");
        o.append("GLDEBUGPROCARB");
        o.append(" = ");
        o.append("Option<extern \"system\" fn");
        o.append(debug_params);
        o.append(";");
        proof {
            assert(o@ =~= alias_line("GLDEBUGPROCARB"@, opt_abi_fn() + debug_callback_params()));
        }
        Ok(o)
    } else if str_eq(
        s,
        "typedef void (* GLDEBUGPROCKHR)(GLenum source,GLenum type,GLuint id,GLenum severity,GLsizei length,const GLchar *message,const void *userParam);",
    ) {
        let mut o = String::new();
        o.append("pub type ");
        o.append("GLDEBUGPROCKHR");
        o.append(" = ");
        o.append("Option<extern \"system\" fn");
        o.append(debug_params);
        o.append(";");
        proof {
            assert(o@ =~= alias_line("GLDEBUGPROCKHR"@, opt_abi_fn() + debug_callback_params()));
        }
        Ok(o)
    } else if str_eq(
        s,
        "typedef void (* GLDEBUGPROCAMD)(GLuint id,GLenum category,GLenum severity,GLsizei length,const GLchar *message,void *userParam);",
    ) {
        let mut o = String::new();
        o.append("pub type ");
        o.append("GLDEBUGPROCAMD");
        o.append(" = ");
        o.append("Option<extern \"system\" fn");
        o.append(amd_params);
        o.append(";");
        proof {
            assert(o@ =~= alias_line("GLDEBUGPROCAMD"@, opt_abi_fn() + amd_callback_params()));
        }
        Ok(o)
    } else if str_eq(s, "typedef void (* GLVULKANPROCNV)(void);") {
        let mut o = String::new();
        o.append("pub type ");
        o.append("GLVULKANPROCNV");
        o.append(" = ");
        o.append("Option<extern \"system\" fn");
        o.append("()>");
        o.append(";");
        proof {
            assert(o@ =~= alias_line("GLVULKANPROCNV"@, opt_abi_fn() + "()>"@));
        }
        Ok(o)
    } else {
        Err(ParseError)
    }
}

impl GlType {
    /// Translates this entry's declaration text into the target-language
    /// declaration it stands for; text outside the closed vocabulary is a
    /// translation violation.
    pub fn render(&self) -> (r: Result<String, ParseError>)
        ensures
            match r {
                Ok(o) => render_type(self.deep_view()) == Some(o@),
                Err(_) => render_type(self.deep_view()) is None,
            },
    {
        match self {
            GlType::Typedef(s) => {
                let w = chars_of(s.as_str());
                let n = w.len();
                if n == 0 || w[n - 1] != ';' {
                    return Err(ParseError);
                }
                let body = copy_range(&w, 0, n - 1);
                let words = split_ws_chars(&body);
                let ghost wv = split_ws(s@.subrange(0, s@.len() - 1));
                proof {
                    assert(body@ =~= s@.subrange(0, s@.len() - 1));
                    assert(words.deep_view() == wv);
                }
                let wn = words.len();
                proof {
                    assert(forall|x: int|
                        0 <= x < wn ==> wv[x] =~= #[trigger] words@[x].deep_view());
                    assert(forall|x: int| 0 <= x < wn ==> wv[x] =~= #[trigger] words@[x]@);
                }
                if wn < 3 {
                    return Err(ParseError);
                }
                if !chars_eq_str(&words[0], "typedef") {
                    return Err(ParseError);
                }
                let ghost mid = wv.subrange(1, wv.len() - 1);
                proof {
                    assert(forall|x: int| 0 <= x < mid.len() ==> mid[x] == wv[x + 1]);
                }
                if chars_eq_str(&words[1], "unsigned") {
                    if wn < 4 {
                        return Err(ParseError);
                    }
                    let old = if chars_eq_str(&words[2], "int") {
                        "c_uint"
                    } else if chars_eq_str(&words[2], "char") {
                        "c_uchar"
                    } else if chars_eq_str(&words[2], "short") {
                        "c_ushort"
                    } else {
                        return Err(ParseError);
                    };
                    Ok(build_alias_line(&words[wn - 1], old))
                } else if chars_eq_str(&words[1], "void") {
                    if wn == 3 {
                        return Ok(build_alias_line(&words[wn - 1], "c_void"));
                    }
                    if chars_eq_str(&words[2], "*") {
                        Ok(build_alias_line(&words[wn - 1], "*mut c_void"))
                    } else if chars_eq_str(&words[2], "(*") {
                        render_fn_ptr(s.as_str())
                    } else {
                        Err(ParseError)
                    }
                } else if chars_eq_str(&words[1], "struct") {
                    if wn < 5 {
                        return Err(ParseError);
                    }
                    if !chars_eq_str(&words[2], "__GLsync") {
                        return Err(ParseError);
                    }
                    if !chars_eq_str(&words[3], "*") {
                        return Err(ParseError);
                    }
                    let mut o = String::new();
                    o.append("pub struct __GLsync{ _priv: u8 }");
                    o.append("pub type ");
                    o.append(string_of(&words[wn - 1]).as_str());
                    o.append(" = ");
                    o.append("*mut GLsync");
                    o.append(";");
                    proof {
                        assert(o@ =~= "pub struct __GLsync{ _priv: u8 }"@ + alias_line(
                            wv[wv.len() - 1],
                            "*mut GLsync"@,
                        ));
                    }
                    Ok(o)
                } else {
                    let old = if chars_eq_str(&words[1], "khronos_int8_t") {
                        "i8"
                    } else if chars_eq_str(&words[1], "khronos_uint8_t") {
                        "u8"
                    } else if chars_eq_str(&words[1], "khronos_int16_t") {
                        "i16"
                    } else if chars_eq_str(&words[1], "khronos_uint16_t") {
                        "u16"
                    } else if chars_eq_str(&words[1], "khronos_int32_t") {
                        "i32"
                    } else if chars_eq_str(&words[1], "khronos_uint32_t") {
                        "u32"
                    } else if chars_eq_str(&words[1], "khronos_int64_t") {
                        "i64"
                    } else if chars_eq_str(&words[1], "khronos_uint64_t") {
                        "u64"
                    } else if chars_eq_str(&words[1], "khronos_float_t") {
                        "c_float"
                    } else if chars_eq_str(&words[1], "khronos_intptr_t") {
                        "isize"
                    } else if chars_eq_str(&words[1], "khronos_ssize_t") {
                        "isize"
                    } else if chars_eq_str(&words[1], "GLintptr") {
                        "GLintptr"
                    } else if chars_eq_str(&words[1], "double") {
                        "c_double"
                    } else if chars_eq_str(&words[1], "int") {
                        "c_int"
                    } else if chars_eq_str(&words[1], "char") {
                        "c_char"
                    } else {
                        return Err(ParseError);
                    };
                    Ok(build_alias_line(&words[wn - 1], old))
                }
            },
            GlType::Struct(s) => {
                let w = chars_of(s.as_str());
                let n = w.len();
                if n == 0 {
                    return Err(ParseError);
                }
                let body = copy_range(&w, 0, n - 1);
                let words = split_ws_chars(&body);
                let ghost wv = split_ws(s@.subrange(0, s@.len() - 1));
                proof {
                    assert(body@ =~= s@.subrange(0, s@.len() - 1));
                    assert(words.deep_view() == wv);
                    assert(forall|x: int|
                        0 <= x < words@.len() ==> wv[x] =~= #[trigger] words@[x]@);
                }
                if words.len() < 2 {
                    return Err(ParseError);
                }
                if !chars_eq_str(&words[0], "struct") {
                    return Err(ParseError);
                }
                let mut o = String::new();
                o.append("pub struct ");
                o.append(string_of(&words[1]).as_str());
                o.append("{ _priv: u8 }");
                proof {
                    assert(o@ =~= "pub struct "@ + wv[1] + "{ _priv: u8 }"@);
                }
                Ok(o)
            },
            GlType::IfDef(s) => {
                if str_eq(
                    s.as_str(),
                    "#ifdef __APPLE__\r\ntypedef void *GLhandleARB;\r\n#else\r\ntypedef unsigned int GLhandleARB;\r\n#endif",
                ) {
                    let mut o = String::new();
                    o.append("#[cfg(");
                    o.append("any(target_os=\"macos\", target_os=\"ios\"))]pub type GLhandleARB = *mut c_void;");
                    o.append("#[cfg(");
                    o.append("not(any(target_os=\"macos\", target_os=\"ios\")))]pub type GLhandleARB = c_uint;");
                    proof {
                        assert(o@ =~= conditional_render_out());
                    }
                    Ok(o)
                } else {
                    Err(ParseError)
                }
            },
        }
    }
}

/// The declared numeric type of a constant: the bitmask type when the
/// flag is set, the 64-bit unsigned type for the maximum 64-bit
/// hexadecimal literal, the standard enumerated-constant type otherwise.
pub open spec fn enum_ty(e: GlEnumV) -> Seq<char> {
    if e.is_bitmask {
        "GLbitmask"@
    } else if e.value == "0xFFFFFFFFFFFFFFFF"@ {
        "u64"@
    } else {
        "GLenum"@
    }
}

/// The value text of a constant's declaration: a negative literal is
/// wrapped in an explicit reinterpretation cast to the chosen type, any
/// other literal is kept unchanged.
pub open spec fn enum_val(e: GlEnumV) -> Seq<char> {
    if e.value.len() > 0 && e.value[0] == '-' {
        e.value + " as "@ + enum_ty(e)
    } else {
        e.value
    }
}

/// The documentation string attached to a constant's declaration: the
/// name/type/literal triple, the group labels where present, and the alias
/// target where present.
pub open spec fn enum_doc(e: GlEnumV) -> Seq<char> {
    let base = "`"@ + e.name + ": "@ + enum_ty(e) + " = "@ + e.value + "`"@;
    let with_group = match e.group {
        Some(g) => base + "\n* **Group"@ + (if split_at_char(g, ',').len() > 1 {
            "s"@
        } else {
            Seq::empty()
        }) + ":** "@ + join_comma_space(split_at_char(g, ',')),
        None => base,
    };
    match e.alias_of {
        Some(a) => with_group + "\n* **Alias Of:** `"@ + a + "`"@,
        None => with_group,
    }
}

/// A constant's full declaration, with its documentation attached.
pub open spec fn rendered_enum(e: GlEnumV) -> Seq<char> {
    "#[doc = \""@ + enum_doc(e) + "\"]\npub const "@ + e.name + ": "@ + enum_ty(e) + " = "@
        + enum_val(e) + ";"@
}

/// What one constant contributes to a rendering pass: nothing when it
/// carries an API scope other than the target, its declaration otherwise.
pub open spec fn render_enum(e: GlEnumV, api: ApiGroup) -> Seq<char> {
    match e.api {
        Some(a) => if a != api {
            Seq::empty()
        } else {
            rendered_enum(e)
        },
        None => rendered_enum(e),
    }
}

/// Tags a constant about to be rendered with the target API group.
#[derive(Debug)]
pub struct GlEnumDisplayer<'e> {
    /// The constant to render.
    pub gl_enum: &'e GlEnum,
    /// The API group this rendering pass targets.
    pub api: ApiGroup,
}

impl<'e> GlEnumDisplayer<'e> {
    /// The text this constant contributes to the pass: empty when the
    /// constant's API scope differs from the target.
    #[verifier::loop_isolation(false)]
    pub fn render(&self) -> (r: String)
        ensures
            r@ == render_enum(self.gl_enum.deep_view(), self.api),
    {
        let e = self.gl_enum;
        match &e.api {
            Some(a) => {
                if *a != self.api {
                    return String::new();
                }
            },
            None => {},
        }
        let value = e.value.as_str();
        let ty: &str = if e.is_bitmask {
            "GLbitmask"
        } else if str_eq(value, "0xFFFFFFFFFFFFFFFF") {
            "u64"
        } else {
            "GLenum"
        };
        proof {
            assert(ty@ == enum_ty(e.deep_view()));
        }
        let neg = value.unicode_len() > 0 && value.get_char(0) == '-';
        let mut val = e.value.clone();
        if neg {
            val.append(" as ");
            val.append(ty);
        }
        proof {
            assert(val@ == enum_val(e.deep_view()));
        }
        let mut doc = String::new();
        doc.append("`");
        doc.append(e.name.as_str());
        doc.append(": ");
        doc.append(ty);
        doc.append(" = ");
        doc.append(value);
        doc.append("`");
        proof {
            assert(doc@ =~= "`"@ + e.name@ + ": "@ + enum_ty(e.deep_view()) + " = "@ + e.value@
                + "`"@);
        }
        match &e.group {
            Some(g) => {
                let parts = split_commas(g.as_str());
                doc.append("\n* **Group");
                if parts.len() > 1 {
                    doc.append("s");
                }
                doc.append(":** ");
                let ghost pv = parts.deep_view();
                let ghost doc0 = doc@;
                let pn = parts.len();
                let mut k: usize = 0;
                proof {
                    assert(pv.len() == split_at_char(g@, ',').len());
                    assert(pv.take(0) =~= Seq::<Seq<char>>::empty());
                }
                while k < pn
                    invariant
                        k <= pn,
                        doc@ == doc0 + join_comma_space(pv.take(k as int)),
                    decreases pn - k,
                {
                    proof {
                        assert(pv[k as int] == parts@[k as int].deep_view());
                        assert(pv.take(k + 1 as int) =~= pv.take(k as int).push(pv[k as int]));
                    }
                    if k != 0 {
                        doc.append(", ");
                        proof {
                            lemma_join_push(pv.take(k as int), pv[k as int]);
                        }
                    } else {
                        proof {
                            assert(join_comma_space(pv.take(1)) == pv[0]);
                        }
                    }
                    doc.append(parts[k].as_str());
                    k += 1;
                }
                proof {
                    assert(pv.take(pn as int) =~= pv);
                }
            },
            None => {},
        }
        match &e.alias_of {
            Some(a) => {
                doc.append("\n* **Alias Of:** `");
                doc.append(a.as_str());
                doc.append("`");
            },
            None => {},
        }
        proof {
            assert(doc@ =~= enum_doc(e.deep_view()));
        }
        let mut out = String::new();
        out.append("#[doc = \"");
        out.append(doc.as_str());
        out.append("\"]\npub const ");
        out.append(e.name.as_str());
        out.append(": ");
        out.append(ty);
        out.append(" = ");
        out.append(val.as_str());
        out.append(";");
        proof {
            assert(out@ =~= rendered_enum(e.deep_view()));
        }
        out
    }
}

/// A constant with no API scope renders identically for every target; one
/// with a scope renders its declaration only when the target matches, and
/// contributes nothing otherwise.
pub proof fn lemma_scope_filter(e: GlEnumV, a: ApiGroup, b: ApiGroup)
    ensures
        e.api is None ==> render_enum(e, a) == render_enum(e, b),
        (match e.api {
            Some(x) => a != x,
            None => false,
        }) ==> render_enum(e, a) == Seq::<char>::empty(),
        (match e.api {
            Some(x) => a == x,
            None => true,
        }) ==> render_enum(e, a) == rendered_enum(e) && render_enum(e, a).len() > 0,
{
    reveal_strlit("#[doc = \"");
}

/// A constant whose literal value is the maximum 64-bit hexadecimal
/// pattern is declared with the 64-bit unsigned type; the bitmask type
/// still takes precedence where that flag is set, so the flag is left out
/// here.
pub proof fn lemma_max_hex_is_u64(e: GlEnumV)
    requires
        !e.is_bitmask,
        e.value == "0xFFFFFFFFFFFFFFFF"@,
    ensures
        enum_ty(e) == "u64"@,
{
}

/// A negative literal is declared through an explicit cast wrapping the
/// literal, to the chosen type; a non-negative literal is declared
/// unchanged.
pub proof fn lemma_negative_value_cast(e: GlEnumV)
    ensures
        e.value.len() > 0 && e.value[0] == '-' ==> enum_val(e) == e.value + " as "@ + enum_ty(e),
        !(e.value.len() > 0 && e.value[0] == '-') ==> enum_val(e) == e.value,
{
}

/// Any function-pointer-shaped typedef text other than the five known
/// signatures is a translation violation.
pub proof fn lemma_unknown_fn_ptr(s: Seq<char>)
    requires
        s.len() > 0,
        s[s.len() - 1] == ';',
        ({
            let words = split_ws(s.subrange(0, s.len() - 1));
            words.len() >= 4 && words[0] == "typedef"@ && words[1] == "void"@ && words[2] == "(*"@
        }),
        s != sig_debugproc(),
        s != sig_debugproc_arb(),
        s != sig_debugproc_khr(),
        s != sig_debugproc_amd(),
        s != sig_vulkanproc_nv(),
    ensures
        render_type(GlTypeV::Typedef(s)) is None,
{
    let words = split_ws(s.subrange(0, s.len() - 1));
    let mid = words.subrange(1, words.len() - 1);
    assert(mid[0] == words[1]);
    assert(mid.len() >= 2);
    assert(mid[1] == words[2]);
    reveal_strlit("unsigned");
    reveal_strlit("void");
    reveal_strlit("struct");
    reveal_strlit("(*");
    reveal_strlit("*");
    assert("void"@ != "unsigned"@) by {
        assert("void"@.len() == 4);
    };
    assert("(*"@ != "*"@) by {
        assert("(*"@.len() == 2);
    };
}

} // verus!
