use phosphorus::model::{ApiGroup, GlEnum, GlType};
use phosphorus::render::GlEnumDisplayer;

fn plain_enum(name: &str, value: &str) -> GlEnum {
    GlEnum {
        name: name.to_string(),
        value: value.to_string(),
        group: None,
        alias_of: None,
        api: None,
        is_bitmask: false,
    }
}

#[test]
fn bitfield_typedef_maps_to_unsigned_primitive() {
    let t = GlType::Typedef("typedef unsigned int GLbitfield;".to_string());
    assert_eq!(t.render().unwrap(), "pub type GLbitfield = c_uint;");
}

#[test]
fn primitive_table_entries_translate() {
    let cases = [
        ("typedef unsigned char GLboolean;", "pub type GLboolean = c_uchar;"),
        ("typedef unsigned short GLushort;", "pub type GLushort = c_ushort;"),
        ("typedef int GLint;", "pub type GLint = c_int;"),
        ("typedef char GLchar;", "pub type GLchar = c_char;"),
        ("typedef double GLdouble;", "pub type GLdouble = c_double;"),
        ("typedef khronos_int8_t GLbyte;", "pub type GLbyte = i8;"),
        ("typedef khronos_uint64_t GLuint64;", "pub type GLuint64 = u64;"),
        ("typedef khronos_float_t GLfloat;", "pub type GLfloat = c_float;"),
        ("typedef khronos_intptr_t GLintptr;", "pub type GLintptr = isize;"),
        ("typedef khronos_ssize_t GLsizeiptr;", "pub type GLsizeiptr = isize;"),
        ("typedef GLintptr GLvdpauSurfaceNV;", "pub type GLvdpauSurfaceNV = GLintptr;"),
    ];
    for (input, expected) in cases {
        let t = GlType::Typedef(input.to_string());
        assert_eq!(t.render().unwrap(), expected, "for {input}");
    }
}

#[test]
fn void_typedefs_translate() {
    let t = GlType::Typedef("typedef void GLvoid;".to_string());
    assert_eq!(t.render().unwrap(), "pub type GLvoid = c_void;");
    let t = GlType::Typedef("typedef void * GLeglImageOES;".to_string());
    assert_eq!(t.render().unwrap(), "pub type GLeglImageOES = *mut c_void;");
}

#[test]
fn sync_struct_typedef_also_declares_the_struct() {
    let t = GlType::Typedef("typedef struct __GLsync * GLsync;".to_string());
    assert_eq!(
        t.render().unwrap(),
        "pub struct __GLsync{ _priv: u8 }pub type GLsync = *mut GLsync;"
    );
}

#[test]
fn opaque_struct_declares_private_marker() {
    let t = GlType::Struct("struct _cl_context;".to_string());
    assert_eq!(t.render().unwrap(), "pub struct _cl_context{ _priv: u8 }");
}

#[test]
fn unknown_typedef_vocabulary_fails() {
    assert!(GlType::Typedef("typedef float GLclampf;".to_string()).render().is_err());
    assert!(GlType::Typedef("typedef unsigned long GLx;".to_string()).render().is_err());
    assert!(GlType::Typedef("no keyword here;".to_string()).render().is_err());
    assert!(GlType::Typedef("typedef GLx;".to_string()).render().is_err());
    assert!(GlType::Typedef("".to_string()).render().is_err());
}

#[test]
fn amd_debug_callback_is_recognized_exactly() {
    let t = GlType::Typedef(
        "typedef void (* GLDEBUGPROCAMD)(GLuint id,GLenum category,GLenum severity,GLsizei length,const GLchar *message,void *userParam);"
            .to_string(),
    );
    assert_eq!(
        t.render().unwrap(),
        "pub type GLDEBUGPROCAMD = Option<extern \"system\" fn(id: GLuint, category: GLenum, severity: GLenum, length: GLsizei, message: *const GLchar, userParam: *mut c_void)>;"
    );
}

#[test]
fn standard_debug_callback_is_recognized_exactly() {
    let t = GlType::Typedef(
        "typedef void (* GLDEBUGPROC)(GLenum source,GLenum type,GLuint id,GLenum severity,GLsizei length,const GLchar *message,const void *userParam);"
            .to_string(),
    );
    assert_eq!(
        t.render().unwrap(),
        "pub type GLDEBUGPROC = Option<unsafe extern \"system\" fn(source: GLenum, gltype: GLenum, id: GLuint, severity: GLenum, length: GLsizei, message: *const GLchar, userParam: *mut c_void)>;"
    );
}

#[test]
fn vendor_callback_is_recognized_exactly() {
    let t = GlType::Typedef("typedef void (* GLVULKANPROCNV)(void);".to_string());
    assert_eq!(t.render().unwrap(), "pub type GLVULKANPROCNV = Option<extern \"system\" fn()>;");
}

#[test]
fn any_other_function_pointer_shape_fails() {
    let t = GlType::Typedef("typedef void (* GLMYSTERYPROC)(GLenum x);".to_string());
    assert!(t.render().is_err());
}

#[test]
fn conditional_typedef_is_matched_exactly() {
    let t = GlType::IfDef(
        "#ifdef __APPLE__\r\ntypedef void *GLhandleARB;\r\n#else\r\ntypedef unsigned int GLhandleARB;\r\n#endif"
            .to_string(),
    );
    assert_eq!(
        t.render().unwrap(),
        "#[cfg(any(target_os=\"macos\", target_os=\"ios\"))]pub type GLhandleARB = *mut c_void;#[cfg(not(any(target_os=\"macos\", target_os=\"ios\")))]pub type GLhandleARB = c_uint;"
    );
    let other = GlType::IfDef("#ifdef _WIN32\r\nwhatever\r\n#endif".to_string());
    assert!(other.render().is_err());
}

#[test]
fn unscoped_constant_renders_the_same_for_every_target() {
    let e = plain_enum("GL_ONE", "1");
    let a = GlEnumDisplayer { gl_enum: &e, api: ApiGroup::Gl }.render();
    let b = GlEnumDisplayer { gl_enum: &e, api: ApiGroup::Gles2 }.render();
    let c = GlEnumDisplayer { gl_enum: &e, api: ApiGroup::Glsc2 }.render();
    assert_eq!(a, b);
    assert_eq!(b, c);
    assert_eq!(a, "#[doc = \"`GL_ONE: GLenum = 1`\"]\npub const GL_ONE: GLenum = 1;");
}

#[test]
fn scoped_constant_renders_only_for_its_target() {
    let mut e = plain_enum("GL_X", "7");
    e.api = Some(ApiGroup::Gles2);
    let skipped = GlEnumDisplayer { gl_enum: &e, api: ApiGroup::Gl }.render();
    assert_eq!(skipped, "");
    let shown = GlEnumDisplayer { gl_enum: &e, api: ApiGroup::Gles2 }.render();
    assert_eq!(shown, "#[doc = \"`GL_X: GLenum = 7`\"]\npub const GL_X: GLenum = 7;");
}

#[test]
fn max_hex_value_renders_as_u64() {
    let e = plain_enum("GL_TIMEOUT_IGNORED", "0xFFFFFFFFFFFFFFFF");
    let out = GlEnumDisplayer { gl_enum: &e, api: ApiGroup::Gl }.render();
    assert_eq!(
        out,
        "#[doc = \"`GL_TIMEOUT_IGNORED: u64 = 0xFFFFFFFFFFFFFFFF`\"]\npub const GL_TIMEOUT_IGNORED: u64 = 0xFFFFFFFFFFFFFFFF;"
    );
}

#[test]
fn bitmask_flag_takes_precedence_over_max_hex() {
    let mut e = plain_enum("GL_ALL_BITS", "0xFFFFFFFFFFFFFFFF");
    e.is_bitmask = true;
    let out = GlEnumDisplayer { gl_enum: &e, api: ApiGroup::Gl }.render();
    assert!(out.contains(": GLbitmask ="));
}

#[test]
fn bitmask_constant_uses_bitmask_type() {
    let mut e = plain_enum("GL_DEPTH_BUFFER_BIT", "0x00000100");
    e.is_bitmask = true;
    let out = GlEnumDisplayer { gl_enum: &e, api: ApiGroup::Gl }.render();
    assert_eq!(
        out,
        "#[doc = \"`GL_DEPTH_BUFFER_BIT: GLbitmask = 0x00000100`\"]\npub const GL_DEPTH_BUFFER_BIT: GLbitmask = 0x00000100;"
    );
}

#[test]
fn negative_value_is_wrapped_in_a_cast() {
    let e = plain_enum("GL_NEG", "-2");
    let out = GlEnumDisplayer { gl_enum: &e, api: ApiGroup::Gl }.render();
    assert_eq!(out, "#[doc = \"`GL_NEG: GLenum = -2`\"]\npub const GL_NEG: GLenum = -2 as GLenum;");
}

#[test]
fn non_negative_value_is_kept_unchanged() {
    let e = plain_enum("GL_POS", "0x10");
    let out = GlEnumDisplayer { gl_enum: &e, api: ApiGroup::Gl }.render();
    assert!(out.ends_with("pub const GL_POS: GLenum = 0x10;"));
}

#[test]
fn single_group_label_is_singular() {
    let mut e = plain_enum("GL_G", "3");
    e.group = Some("AlphaFunction".to_string());
    let out = GlEnumDisplayer { gl_enum: &e, api: ApiGroup::Gl }.render();
    assert_eq!(
        out,
        "#[doc = \"`GL_G: GLenum = 3`\n* **Group:** AlphaFunction\"]\npub const GL_G: GLenum = 3;"
    );
}

#[test]
fn several_group_labels_are_plural_and_joined_in_order() {
    let mut e = plain_enum("GL_G", "3");
    e.group = Some("A,B,C".to_string());
    let out = GlEnumDisplayer { gl_enum: &e, api: ApiGroup::Gl }.render();
    assert_eq!(
        out,
        "#[doc = \"`GL_G: GLenum = 3`\n* **Groups:** A, B, C\"]\npub const GL_G: GLenum = 3;"
    );
}

#[test]
fn alias_target_is_documented() {
    let mut e = plain_enum("GL_NEW", "4");
    e.alias_of = Some("GL_OLD".to_string());
    let out = GlEnumDisplayer { gl_enum: &e, api: ApiGroup::Gl }.render();
    assert_eq!(
        out,
        "#[doc = \"`GL_NEW: GLenum = 4`\n* **Alias Of:** `GL_OLD`\"]\npub const GL_NEW: GLenum = 4;"
    );
}

#[test]
fn negative_bitmask_value_casts_to_the_bitmask_type() {
    let mut e = plain_enum("GL_NEG_BIT", "-1");
    e.is_bitmask = true;
    let out = GlEnumDisplayer { gl_enum: &e, api: ApiGroup::Gl }.render();
    assert_eq!(
        out,
        "#[doc = \"`GL_NEG_BIT: GLbitmask = -1`\"]\npub const GL_NEG_BIT: GLbitmask = -1 as GLbitmask;"
    );
}
