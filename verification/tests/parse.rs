use phosphorus::event::XmlEvent;
use phosphorus::model::{ApiGroup, GlEnum, GlRegistry, GlType, ReqRem};
use phosphorus::walker::{eat_to_comment_close, grab_out_name_text, parse_registry};

#[test]
fn empty_registry_parses() {
    let reg = parse_registry("<registry></registry>").unwrap();
    assert_eq!(reg.gl_types.len(), 0);
    assert_eq!(reg.gl_enums.len(), 0);
    assert_eq!(reg.gl_commands.len(), 0);
    assert_eq!(reg.gl_features.len(), 0);
    assert_eq!(reg.gl_extensions.len(), 0);
}

#[test]
fn xml_declaration_and_comments_are_skipped() {
    let doc = "<?xml version=\"1.0\" encoding=\"UTF-8\"?>\n<!-- outer -->\n<registry></registry>";
    assert!(parse_registry(doc).is_ok());
}

#[test]
fn minimal_document_has_one_entry_per_child() {
    let doc = "<registry>\
        <types><type>typedef unsigned int <name>GLenum</name>;</type></types>\
        <enums namespace=\"GL\"><enum name=\"GL_ONE\" value=\"1\"/><enum name=\"GL_TWO\" value=\"2\"/></enums>\
        <commands namespace=\"GL\"><command><proto>void <name>glFlush</name></proto></command></commands>\
        <feature api=\"gl\" name=\"GL_VERSION_1_0\" number=\"1.0\"><require><enum name=\"GL_ONE\"/></require></feature>\
        <extensions><extension name=\"GL_ARB_x\" supported=\"gl\"></extension></extensions>\
        </registry>";
    let reg = parse_registry(doc).unwrap();
    assert_eq!(reg.gl_types.len(), 1);
    assert_eq!(reg.gl_enums.len(), 2);
    assert_eq!(reg.gl_commands.len(), 1);
    assert_eq!(reg.gl_features.len(), 1);
    assert_eq!(reg.gl_extensions.len(), 1);
    assert_eq!(reg.gl_enums[0].name, "GL_ONE");
    assert_eq!(reg.gl_enums[1].name, "GL_TWO");
    assert_eq!(reg.gl_commands[0].name, "glFlush");
    assert_eq!(reg.gl_commands[0].proto, "void glFlush");
    assert_eq!(reg.gl_features[0].api, ApiGroup::Gl);
    assert_eq!(reg.gl_features[0].required.len(), 1);
    match &reg.gl_features[0].required[0].adjustment {
        ReqRem::Enum(n) => assert_eq!(n, "GL_ONE"),
        other => panic!("wrong adjustment: {:?}", other),
    }
    assert_eq!(reg.gl_extensions[0].name, "GL_ARB_x");
    assert_eq!(reg.gl_extensions[0].supported, "gl");
}

#[test]
fn type_text_is_entity_decoded_and_trimmed() {
    let doc = "<registry><types>\
        <type>typedef &lt;weird&gt; &amp; <name>T</name>;</type>\
        </types></registry>";
    let reg = parse_registry(doc).unwrap();
    assert_eq!(reg.gl_types.len(), 1);
    match &reg.gl_types[0] {
        GlType::Typedef(s) => assert_eq!(s, "typedef <weird> & T;"),
        other => panic!("wrong type shape: {:?}", other),
    }
}

#[test]
fn inclusion_blocks_yield_no_type_entry() {
    let doc = "<registry><types>\
        <type>#include &lt;KHR/khrplatform.h&gt;</type>\
        <type>typedef unsigned int <name>GLenum</name>;</type>\
        </types></registry>";
    let reg = parse_registry(doc).unwrap();
    assert_eq!(reg.gl_types.len(), 1);
}

#[test]
fn bad_escape_in_type_text_fails() {
    let doc = "<registry><types><type>typedef &x; <name>T</name>;</type></types></registry>";
    assert!(parse_registry(doc).is_err());
}

#[test]
fn self_closing_enums_section_is_legal_and_empty() {
    let doc = "<registry><enums namespace=\"GL\" group=\"X\"/></registry>";
    let reg = parse_registry(doc).unwrap();
    assert_eq!(reg.gl_enums.len(), 0);
}

#[test]
fn bitmask_section_marks_its_constants() {
    let doc = "<registry><enums namespace=\"GL\" type=\"bitmask\">\
        <enum name=\"GL_A_BIT\" value=\"0x1\"/>\
        </enums></registry>";
    let reg = parse_registry(doc).unwrap();
    assert!(reg.gl_enums[0].is_bitmask);
}

#[test]
fn constant_attributes_are_kept() {
    let doc = "<registry><enums namespace=\"GL\">\
        <enum name=\"GL_X\" value=\"7\" group=\"A,B\" alias=\"GL_Y\" api=\"gles2\" comment=\"c\"/>\
        </enums></registry>";
    let reg = parse_registry(doc).unwrap();
    let e = &reg.gl_enums[0];
    assert_eq!(e.name, "GL_X");
    assert_eq!(e.value, "7");
    assert_eq!(e.group.as_deref(), Some("A,B"));
    assert_eq!(e.alias_of.as_deref(), Some("GL_Y"));
    assert_eq!(e.api, Some(ApiGroup::Gles2));
    assert!(!e.is_bitmask);
}

#[test]
fn same_name_may_recur_with_different_scopes() {
    let doc = "<registry><enums namespace=\"GL\">\
        <enum name=\"GL_ACTIVE_PROGRAM_EXT\" value=\"0x8259\" api=\"gl\"/>\
        <enum name=\"GL_ACTIVE_PROGRAM_EXT\" value=\"0x8B8D\" api=\"gles2\"/>\
        </enums></registry>";
    let reg = parse_registry(doc).unwrap();
    assert_eq!(reg.gl_enums.len(), 2);
    assert_eq!(reg.gl_enums[0].value, "0x8259");
    assert_eq!(reg.gl_enums[1].value, "0x8B8D");
}

#[test]
fn unknown_registry_tag_fails_with_no_registry() {
    assert!(parse_registry("<registry><bogus></bogus></registry>").is_err());
}

#[test]
fn unknown_enum_attribute_fails() {
    let doc = "<registry><enums namespace=\"GL\"><enum name=\"A\" value=\"1\" shiny=\"yes\"/></enums></registry>";
    assert!(parse_registry(doc).is_err());
}

#[test]
fn constant_without_name_or_value_fails() {
    assert!(parse_registry("<registry><enums namespace=\"GL\"><enum value=\"1\"/></enums></registry>").is_err());
    assert!(parse_registry("<registry><enums namespace=\"GL\"><enum name=\"A\"/></enums></registry>").is_err());
}

#[test]
fn unknown_api_scope_fails() {
    let doc = "<registry><enums namespace=\"GL\"><enum name=\"A\" value=\"1\" api=\"vulkan\"/></enums></registry>";
    assert!(parse_registry(doc).is_err());
}

#[test]
fn wrong_commands_namespace_fails() {
    let doc = "<registry><commands namespace=\"VK\"></commands></registry>";
    assert!(parse_registry(doc).is_err());
}

#[test]
fn missing_root_end_tag_fails() {
    assert!(parse_registry("<registry>").is_err());
    assert!(parse_registry("").is_err());
}

#[test]
fn comment_and_groups_sections_are_skipped_whole() {
    let doc = "<registry>\
        <comment>anything <at>all</at> here</comment>\
        <groups><group name=\"X\"><enum name=\"GL_ONE\"/></group></groups>\
        </registry>";
    let reg = parse_registry(doc).unwrap();
    assert_eq!(reg.gl_enums.len(), 0);
}

#[test]
fn command_records_params_and_markers() {
    let doc = "<registry><commands namespace=\"GL\"><command>\
        <proto group=\"G\"><ptype>GLenum</ptype> <name>glGetError</name></proto>\
        <param group=\"P\" len=\"1\"><ptype>GLuint</ptype><name>id</name></param>\
        <glx type=\"render\" opcode=\"1\"/>\
        <alias name=\"glGetErrorARB\"/>\
        <vecequiv name=\"glGetErrorv\"/>\
        </command></commands></registry>";
    let reg = parse_registry(doc).unwrap();
    let c = &reg.gl_commands[0];
    assert_eq!(c.name, "glGetError");
    assert_eq!(c.proto, "GLenumglGetError");
    assert_eq!(c.proto_group.as_deref(), Some("G"));
    assert_eq!(c.params.len(), 1);
    assert_eq!(c.params[0].text, "GLuint id");
    assert_eq!(c.params[0].group.as_deref(), Some("P"));
    assert_eq!(c.params[0].len.as_deref(), Some("1"));
    assert_eq!(c.glx_attrs.as_deref(), Some("type=\"render\" opcode=\"1\""));
    assert_eq!(c.alias_of.as_deref(), Some("glGetErrorARB"));
    assert_eq!(c.vec_equivalent.as_deref(), Some("glGetErrorv"));
}

#[test]
fn feature_collects_requirements_and_removals_in_order() {
    let doc = "<registry><feature api=\"gles2\" name=\"GL_ES_VERSION_3_0\" number=\"3.0\">\
        <require profile=\"core\"><type name=\"GLenum\"/><command name=\"glFlush\"/></require>\
        <require/>\
        <remove profile=\"core\"><enum name=\"GL_OLD\"/></remove>\
        </feature></registry>";
    let reg = parse_registry(doc).unwrap();
    let f = &reg.gl_features[0];
    assert_eq!(f.api, ApiGroup::Gles2);
    assert_eq!(f.name, "GL_ES_VERSION_3_0");
    assert_eq!(f.number, "3.0");
    assert_eq!(f.required.len(), 2);
    assert_eq!(f.required[0].profile.as_deref(), Some("core"));
    assert_eq!(f.required[0].api, None);
    match &f.required[0].adjustment {
        ReqRem::Type(n) => assert_eq!(n, "GLenum"),
        other => panic!("wrong adjustment: {:?}", other),
    }
    match &f.required[1].adjustment {
        ReqRem::Command(n) => assert_eq!(n, "glFlush"),
        other => panic!("wrong adjustment: {:?}", other),
    }
    assert_eq!(f.remove.len(), 1);
    assert_eq!(f.remove[0].profile.as_deref(), Some("core"));
}

#[test]
fn self_closing_extension_keeps_name_and_supported() {
    let doc = "<registry><extensions>\
        <extension name=\"GL_NV_y\" supported=\"gl|gles2\"/>\
        </extensions></registry>";
    let reg = parse_registry(doc).unwrap();
    assert_eq!(reg.gl_extensions[0].name, "GL_NV_y");
    assert_eq!(reg.gl_extensions[0].supported, "gl|gles2");
    assert_eq!(reg.gl_extensions[0].required.len(), 0);
}

#[test]
fn extension_require_may_carry_api_scope() {
    let doc = "<registry><extensions><extension name=\"GL_EXT_z\" supported=\"gl\">\
        <require api=\"gles2\" profile=\"common\"><enum name=\"GL_Z\"/></require>\
        </extension></extensions></registry>";
    let reg = parse_registry(doc).unwrap();
    let r = &reg.gl_extensions[0].required[0];
    assert_eq!(r.api, Some(ApiGroup::Gles2));
    assert_eq!(r.profile.as_deref(), Some("common"));
}

#[test]
fn from_iter_consumes_through_the_end_tag() {
    let events = vec![
        XmlEvent::Empty { name: "enums".to_string(), attrs: "".to_string() },
        XmlEvent::End { name: "registry".to_string() },
    ];
    let (reg, end) = GlRegistry::from_iter(&events, 0).unwrap();
    assert_eq!(end, 2);
    assert_eq!(reg.gl_enums.len(), 0);
}

#[test]
fn from_iter_rejects_text_at_registry_level() {
    let events = vec![
        XmlEvent::Text { text: "stray".to_string() },
        XmlEvent::End { name: "registry".to_string() },
    ];
    assert!(GlRegistry::from_iter(&events, 0).is_err());
}

#[test]
fn eat_to_comment_close_skips_everything_before_it() {
    let events = vec![
        XmlEvent::Text { text: "a".to_string() },
        XmlEvent::Start { name: "deep".to_string(), attrs: "".to_string() },
        XmlEvent::End { name: "comment".to_string() },
        XmlEvent::End { name: "registry".to_string() },
    ];
    assert_eq!(eat_to_comment_close(&events, 0).unwrap(), 3);
    assert!(eat_to_comment_close(&events, 3).is_err());
}

#[test]
fn grab_out_name_text_takes_text_then_end() {
    let events = vec![
        XmlEvent::Text { text: "glFlush".to_string() },
        XmlEvent::End { name: "name".to_string() },
    ];
    let (t, j) = grab_out_name_text(&events, 0).unwrap();
    assert_eq!(t, "glFlush");
    assert_eq!(j, 2);
    let bad = vec![XmlEvent::End { name: "name".to_string() }];
    assert!(grab_out_name_text(&bad, 0).is_err());
}

#[test]
fn enum_from_attrs_concatenates_repeated_names() {
    let e = GlEnum::from_attrs("name=\"GL_A\" name=\"_B\" value=\"1\"", false).unwrap();
    assert_eq!(e.name, "GL_A_B");
}

#[test]
fn two_enums_sections_accumulate_in_order() {
    let doc = "<registry>\
        <enums namespace=\"GL\"><enum name=\"GL_A\" value=\"1\"/></enums>\
        <enums namespace=\"GL\" type=\"bitmask\"><enum name=\"GL_B\" value=\"2\"/></enums>\
        </registry>";
    let reg = parse_registry(doc).unwrap();
    assert_eq!(reg.gl_enums.len(), 2);
    assert_eq!(reg.gl_enums[0].name, "GL_A");
    assert!(!reg.gl_enums[0].is_bitmask);
    assert_eq!(reg.gl_enums[1].name, "GL_B");
    assert!(reg.gl_enums[1].is_bitmask);
}

#[test]
fn unused_markers_produce_no_entries() {
    let doc = "<registry><enums namespace=\"GL\">\
        <unused start=\"0x1\" end=\"0x2\"/>\
        <enum name=\"GL_A\" value=\"1\"/>\
        </enums></registry>";
    let reg = parse_registry(doc).unwrap();
    assert_eq!(reg.gl_enums.len(), 1);
}

#[test]
fn unknown_feature_attribute_fails() {
    let doc = "<registry><feature api=\"gl\" name=\"N\" number=\"1.0\" shiny=\"x\"></feature></registry>";
    assert!(parse_registry(doc).is_err());
}

#[test]
fn self_closing_require_inside_extension_fails() {
    let doc = "<registry><extensions><extension name=\"E\" supported=\"gl\"><require/></extension></extensions></registry>";
    assert!(parse_registry(doc).is_err());
}

#[test]
fn comment_key_on_self_closing_extension_fails() {
    let doc = "<registry><extensions><extension name=\"E\" supported=\"gl\" comment=\"c\"/></extensions></registry>";
    assert!(parse_registry(doc).is_err());
}

#[test]
fn unknown_proto_attribute_fails() {
    let doc = "<registry><commands namespace=\"GL\"><command>\
        <proto shiny=\"x\">void <name>glFlush</name></proto>\
        </command></commands></registry>";
    assert!(parse_registry(doc).is_err());
}

#[test]
fn malformed_attribute_text_fails_the_parse() {
    let doc = "<registry><enums namespace=\"GL\"><enum name value=\"1\"/></enums></registry>";
    assert!(parse_registry(doc).is_err());
}

#[test]
fn feature_require_may_carry_api_scope() {
    let doc = "<registry><feature api=\"gl\" name=\"GL_VERSION_4_1\" number=\"4.1\">\
        <require api=\"gles2\"><enum name=\"GL_Z\"/><command name=\"glZ\"/></require>\
        </feature></registry>";
    let reg = parse_registry(doc).unwrap();
    let f = &reg.gl_features[0];
    assert_eq!(f.required.len(), 2);
    assert_eq!(f.required[0].api, Some(ApiGroup::Gles2));
    assert_eq!(f.required[1].api, Some(ApiGroup::Gles2));
}

#[test]
fn unknown_api_scope_on_feature_require_fails() {
    let doc = "<registry><feature api=\"gl\" name=\"N\" number=\"1.0\">\
        <require api=\"vulkan\"></require></feature></registry>";
    assert!(parse_registry(doc).is_err());
}
