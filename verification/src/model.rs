//! The registry model: the types, constants, commands, features and
//! extensions accumulated from one document, in document order, together
//! with the mathematical views the contracts speak of.

use vstd::prelude::*;
use crate::text::str_eq;

verus! {

/// The broad API groups a registry can target.
#[derive(Debug, Clone, Copy, PartialEq, Eq, Structural)]
pub enum ApiGroup {
    /// OpenGL.
    Gl,
    /// OpenGL ES 1.
    Gles1,
    /// OpenGL ES 2 (and also 3).
    Gles2,
    /// OpenGL SC.
    Glsc2,
}

/// The group an `api` attribute value names, if it is one of the four known.
pub open spec fn api_group_of(s: Seq<char>) -> Option<ApiGroup> {
    if s == "gl"@ {
        Some(ApiGroup::Gl)
    } else if s == "gles1"@ {
        Some(ApiGroup::Gles1)
    } else if s == "gles2"@ {
        Some(ApiGroup::Gles2)
    } else if s == "glsc2"@ {
        Some(ApiGroup::Glsc2)
    } else {
        None
    }
}

impl ApiGroup {
    /// The group the attribute value `s` names; `None` for an unknown scope.
    pub fn from(s: &str) -> (r: Option<ApiGroup>)
        ensures
            r == api_group_of(s@),
    {
        if str_eq(s, "gl") {
            Some(ApiGroup::Gl)
        } else if str_eq(s, "gles1") {
            Some(ApiGroup::Gles1)
        } else if str_eq(s, "gles2") {
            Some(ApiGroup::Gles2)
        } else if str_eq(s, "glsc2") {
            Some(ApiGroup::Glsc2)
        } else {
            None
        }
    }
}

impl Default for ApiGroup {
    /// The group used where a document gives none.
    fn default() -> (r: Self)
        ensures
            r == ApiGroup::Gl,
    {
        ApiGroup::Gl
    }
}

/// Some sort of additional type the output must declare.
#[derive(Debug, Clone, PartialEq, Eq)]
pub enum GlType {
    /// A type alias for an existing type, as reconstructed declaration text.
    Typedef(String),
    /// A new struct type, as reconstructed declaration text.
    Struct(String),
    /// A type definition with platform-conditional alternatives in it.
    IfDef(String),
}

/// Mathematical view of a [`GlType`].
#[verifier::ext_equal]
pub ghost enum GlTypeV {
    /// View of [`GlType::Typedef`].
    Typedef(Seq<char>),
    /// View of [`GlType::Struct`].
    Struct(Seq<char>),
    /// View of [`GlType::IfDef`].
    IfDef(Seq<char>),
}

impl DeepView for GlType {
    type V = GlTypeV;

    open spec fn deep_view(&self) -> GlTypeV {
        match self {
            GlType::Typedef(s) => GlTypeV::Typedef(s@),
            GlType::Struct(s) => GlTypeV::Struct(s@),
            GlType::IfDef(s) => GlTypeV::IfDef(s@),
        }
    }
}

/// A constant the output must declare.
#[derive(Debug, Clone, PartialEq, Eq)]
pub struct GlEnum {
    /// The name.
    pub name: String,
    /// The value, kept as the literal text seen in the document so that the
    /// declaration mirrors the source formatting.
    pub value: String,
    /// The comma-joined group labels, where the document gives any.
    pub group: Option<String>,
    /// The name of the constant this one is an alias of, if any.
    pub alias_of: Option<String>,
    /// The owning API scope; a constant without one belongs to every target.
    pub api: Option<ApiGroup>,
    /// Whether the constant is declared with the bitmask type.
    pub is_bitmask: bool,
}

/// Mathematical view of a [`GlEnum`].
#[verifier::ext_equal]
pub ghost struct GlEnumV {
    /// View of the name.
    pub name: Seq<char>,
    /// View of the literal value text.
    pub value: Seq<char>,
    /// View of the group labels.
    pub group: Option<Seq<char>>,
    /// View of the alias target.
    pub alias_of: Option<Seq<char>>,
    /// The owning API scope.
    pub api: Option<ApiGroup>,
    /// The bitmask flag.
    pub is_bitmask: bool,
}

impl DeepView for GlEnum {
    type V = GlEnumV;

    open spec fn deep_view(&self) -> GlEnumV {
        GlEnumV {
            name: self.name@,
            value: self.value@,
            group: self.group.deep_view(),
            alias_of: self.alias_of.deep_view(),
            api: self.api,
            is_bitmask: self.is_bitmask,
        }
    }
}

/// An argument of a callable entry point.
#[derive(Debug, Clone, PartialEq, Eq, Default)]
pub struct GlCommandParam {
    /// The free-text parameter declaration.
    pub text: String,
    /// The semantic group tag, if any.
    pub group: Option<String>,
    /// The length cross-reference expression, if any.
    pub len: Option<String>,
}

/// Mathematical view of a [`GlCommandParam`].
#[verifier::ext_equal]
pub ghost struct GlCommandParamV {
    /// View of the declaration text.
    pub text: Seq<char>,
    /// View of the group tag.
    pub group: Option<Seq<char>>,
    /// View of the length expression.
    pub len: Option<Seq<char>>,
}

impl DeepView for GlCommandParam {
    type V = GlCommandParamV;

    open spec fn deep_view(&self) -> GlCommandParamV {
        GlCommandParamV {
            text: self.text@,
            group: self.group.deep_view(),
            len: self.len.deep_view(),
        }
    }
}

/// A callable entry point the output must bind to.
#[derive(Debug, Clone, PartialEq, Eq, Default)]
pub struct GlCommand {
    /// The entry point's name, as embedded in the prototype.
    pub name: String,
    /// The prototype text.
    pub proto: String,
    /// The prototype-level group tag, if any.
    pub proto_group: Option<String>,
    /// The ordered parameter list.
    pub params: Vec<GlCommandParam>,
    /// Platform-specific extra attributes, kept verbatim.
    pub glx_attrs: Option<String>,
    /// The command this one is an alias of, if any.
    pub alias_of: Option<String>,
    /// The alternate command to call to pass arguments via pointer.
    pub vec_equivalent: Option<String>,
}

/// Mathematical view of a [`GlCommand`].
#[verifier::ext_equal]
pub ghost struct GlCommandV {
    /// View of the name.
    pub name: Seq<char>,
    /// View of the prototype text.
    pub proto: Seq<char>,
    /// View of the prototype-level group tag.
    pub proto_group: Option<Seq<char>>,
    /// Views of the parameters, in order.
    pub params: Seq<GlCommandParamV>,
    /// View of the platform-specific attributes.
    pub glx_attrs: Option<Seq<char>>,
    /// View of the alias target.
    pub alias_of: Option<Seq<char>>,
    /// View of the vector-equivalent command name.
    pub vec_equivalent: Option<Seq<char>>,
}

impl DeepView for GlCommand {
    type V = GlCommandV;

    open spec fn deep_view(&self) -> GlCommandV {
        GlCommandV {
            name: self.name@,
            proto: self.proto@,
            proto_group: self.proto_group.deep_view(),
            params: self.params.deep_view(),
            glx_attrs: self.glx_attrs.deep_view(),
            alias_of: self.alias_of.deep_view(),
            vec_equivalent: self.vec_equivalent.deep_view(),
        }
    }
}

/// Tags a requirement or removal as referring to a Type, Enum or Command.
#[derive(Debug, Clone, PartialEq, Eq)]
pub enum ReqRem {
    /// A type reference.
    Type(String),
    /// A constant reference.
    Enum(String),
    /// A command reference.
    Command(String),
}

/// Mathematical view of a [`ReqRem`].
#[verifier::ext_equal]
pub ghost enum ReqRemV {
    /// View of [`ReqRem::Type`].
    Type(Seq<char>),
    /// View of [`ReqRem::Enum`].
    Enum(Seq<char>),
    /// View of [`ReqRem::Command`].
    Command(Seq<char>),
}

impl DeepView for ReqRem {
    type V = ReqRemV;

    open spec fn deep_view(&self) -> ReqRemV {
        match self {
            ReqRem::Type(s) => ReqRemV::Type(s@),
            ReqRem::Enum(s) => ReqRemV::Enum(s@),
            ReqRem::Command(s) => ReqRemV::Command(s@),
        }
    }
}

/// Something that is new to a given API level; these stack as the levels
/// advance.
#[derive(Debug, Clone, PartialEq, Eq)]
pub struct GlRequirement {
    /// The profile the requirement is limited to, if any.
    pub profile: Option<String>,
    /// The API group the requirement applies to, if limited to one.
    pub api: Option<ApiGroup>,
    /// The requirement itself.
    pub adjustment: ReqRem,
}

/// Mathematical view of a [`GlRequirement`].
#[verifier::ext_equal]
pub ghost struct GlRequirementV {
    /// View of the profile scope.
    pub profile: Option<Seq<char>>,
    /// The API group scope.
    pub api: Option<ApiGroup>,
    /// View of the requirement.
    pub adjustment: ReqRemV,
}

impl DeepView for GlRequirement {
    type V = GlRequirementV;

    open spec fn deep_view(&self) -> GlRequirementV {
        GlRequirementV {
            profile: self.profile.deep_view(),
            api: self.api,
            adjustment: self.adjustment.deep_view(),
        }
    }
}

/// Something to remove compared to the previous API level.
#[derive(Debug, Clone, PartialEq, Eq)]
pub struct GlRemoval {
    /// The profile the removal is limited to, if any.
    pub profile: Option<String>,
    /// The removal itself.
    pub adjustment: ReqRem,
}

/// Mathematical view of a [`GlRemoval`].
#[verifier::ext_equal]
pub ghost struct GlRemovalV {
    /// View of the profile scope.
    pub profile: Option<Seq<char>>,
    /// View of the removal.
    pub adjustment: ReqRemV,
}

impl DeepView for GlRemoval {
    type V = GlRemovalV;

    open spec fn deep_view(&self) -> GlRemovalV {
        GlRemovalV { profile: self.profile.deep_view(), adjustment: self.adjustment.deep_view() }
    }
}

/// A versioned API profile surface.
#[derive(Debug, Clone, PartialEq, Eq)]
pub struct GlFeature {
    /// The API group this feature belongs to.
    pub api: ApiGroup,
    /// The feature's name.
    pub name: String,
    /// The feature's version number text.
    pub number: String,
    /// New requirements compared to the previous feature of the same group.
    pub required: Vec<GlRequirement>,
    /// Removals compared to the previous feature of the same group.
    pub remove: Vec<GlRemoval>,
}

/// Mathematical view of a [`GlFeature`].
#[verifier::ext_equal]
pub ghost struct GlFeatureV {
    /// The API group.
    pub api: ApiGroup,
    /// View of the name.
    pub name: Seq<char>,
    /// View of the version number text.
    pub number: Seq<char>,
    /// Views of the requirements, in order.
    pub required: Seq<GlRequirementV>,
    /// Views of the removals, in order.
    pub remove: Seq<GlRemovalV>,
}

impl DeepView for GlFeature {
    type V = GlFeatureV;

    open spec fn deep_view(&self) -> GlFeatureV {
        GlFeatureV {
            api: self.api,
            name: self.name@,
            number: self.number@,
            required: self.required.deep_view(),
            remove: self.remove.deep_view(),
        }
    }
}

/// A vendor extension layered on top of a feature.
#[derive(Debug, Clone, PartialEq, Eq, Default)]
pub struct GlExtension {
    /// The extension's name.
    pub name: String,
    /// The `|`-separated list of groups that can support this extension.
    pub supported: String,
    /// Requirements for bindings that include this extension.
    pub required: Vec<GlRequirement>,
}

/// Mathematical view of a [`GlExtension`].
#[verifier::ext_equal]
pub ghost struct GlExtensionV {
    /// View of the name.
    pub name: Seq<char>,
    /// View of the supported-on string.
    pub supported: Seq<char>,
    /// Views of the requirements, in order.
    pub required: Seq<GlRequirementV>,
}

impl DeepView for GlExtension {
    type V = GlExtensionV;

    open spec fn deep_view(&self) -> GlExtensionV {
        GlExtensionV {
            name: self.name@,
            supported: self.supported@,
            required: self.required.deep_view(),
        }
    }
}

/// Holds all the info accumulated from one registry document.
#[derive(Debug, Clone, PartialEq, Eq)]
pub struct GlRegistry {
    /// The special types the output must declare.
    pub gl_types: Vec<GlType>,
    /// The constants the output must declare.
    pub gl_enums: Vec<GlEnum>,
    /// The callable entry points.
    pub gl_commands: Vec<GlCommand>,
    /// The versioned API profiles.
    pub gl_features: Vec<GlFeature>,
    /// The vendor extensions.
    pub gl_extensions: Vec<GlExtension>,
}

/// Mathematical view of a [`GlRegistry`].
#[verifier::ext_equal]
pub ghost struct GlRegistryV {
    /// Views of the types, in document order.
    pub gl_types: Seq<GlTypeV>,
    /// Views of the constants, in document order.
    pub gl_enums: Seq<GlEnumV>,
    /// Views of the commands, in document order.
    pub gl_commands: Seq<GlCommandV>,
    /// Views of the features, in document order.
    pub gl_features: Seq<GlFeatureV>,
    /// Views of the extensions, in document order.
    pub gl_extensions: Seq<GlExtensionV>,
}

impl GlRegistryV {
    /// The registry with nothing accumulated yet.
    pub open spec fn empty() -> GlRegistryV {
        GlRegistryV {
            gl_types: Seq::empty(),
            gl_enums: Seq::empty(),
            gl_commands: Seq::empty(),
            gl_features: Seq::empty(),
            gl_extensions: Seq::empty(),
        }
    }
}

impl DeepView for GlRegistry {
    type V = GlRegistryV;

    open spec fn deep_view(&self) -> GlRegistryV {
        GlRegistryV {
            gl_types: self.gl_types.deep_view(),
            gl_enums: self.gl_enums.deep_view(),
            gl_commands: self.gl_commands.deep_view(),
            gl_features: self.gl_features.deep_view(),
            gl_extensions: self.gl_extensions.deep_view(),
        }
    }
}

impl Default for GlRegistry {
    /// The registry with nothing accumulated yet.
    fn default() -> (r: Self)
        ensures
            r.deep_view() == GlRegistryV::empty(),
    {
        let r = GlRegistry {
            gl_types: Vec::new(),
            gl_enums: Vec::new(),
            gl_commands: Vec::new(),
            gl_features: Vec::new(),
            gl_extensions: Vec::new(),
        };
        proof {
            assert(r.gl_types.deep_view() =~= Seq::<GlTypeV>::empty());
            assert(r.gl_enums.deep_view() =~= Seq::<GlEnumV>::empty());
            assert(r.gl_commands.deep_view() =~= Seq::<GlCommandV>::empty());
            assert(r.gl_features.deep_view() =~= Seq::<GlFeatureV>::empty());
            assert(r.gl_extensions.deep_view() =~= Seq::<GlExtensionV>::empty());
        }
        r
    }
}

} // verus!
