//! The component attribute macros: `#[component]`, `#[with_children]` and
//! `#[rsx_component]`, planned over a plain-value model of the item they
//! decorate.
use vstd::prelude::*;
use crate::markup::SrcSpan;
use crate::text::{clone_strings, concat_str, pascal_case_spec, str_equal, string_of, to_pascal_case};

verus! {

/// A type path such as `CardProps` or `crate::ui::CardProps<T>`: whether it
/// has a qualified self (`<T as Tr>::X`), whether it starts with `::`, and
/// the identifiers of its segments.
#[derive(Debug)]
pub struct TypePath {
    pub qself: bool,
    pub leading_colon: bool,
    pub segments: Vec<String>,
}

/// View of a type path.
pub struct TypePathView {
    pub qself: bool,
    pub leading_colon: bool,
    pub segments: Seq<Seq<char>>,
}

impl View for TypePath {
    type V = TypePathView;

    open spec fn view(&self) -> TypePathView {
        TypePathView {
            qself: self.qself,
            leading_colon: self.leading_colon,
            segments: self.segments@.map_values(|s: String| s@),
        }
    }
}

/// A type written in a signature: the handle under which the front end
/// keeps it, its span, and its path when it is a path type.
#[derive(Debug)]
pub struct ParamTy {
    pub handle: usize,
    pub span: SrcSpan,
    pub path: Option<TypePath>,
}

/// The pattern of a typed parameter.
#[derive(Debug)]
pub enum ParamPat {
    /// A plain binding `name`.
    Ident { name: String, span: SrcSpan },
    /// Any other pattern.
    Other { span: SrcSpan },
}

/// A function parameter.
#[derive(Debug)]
pub enum Param {
    /// `self`, `&self` or `&mut self`.
    Receiver { span: SrcSpan },
    /// `pat: ty`.
    Typed { pat: ParamPat, ty: ParamTy, span: SrcSpan },
}

/// The role a parameter plays in a component signature.
#[derive(Copy, Clone, Debug, PartialEq, Eq, Structural)]
pub enum ArgLabel {
    Writer,
    Context,
    Props,
}

/// The attribute macros.
#[derive(Copy, Clone, Debug, PartialEq, Eq, Structural)]
pub enum AttrMacro {
    Component,
    WithChildren,
    RsxComponent,
}

/// Why an attribute macro refused its item.
#[derive(Copy, Clone, Debug, PartialEq, Eq, Structural)]
pub enum AttrError {
    /// The attribute was given arguments.
    UnexpectedArguments { attr: AttrMacro },
    /// `#[with_children]` on a struct without named fields.
    NotNamedFields,
    /// `#[component]` on a generic function.
    GenericComponent { span: SrcSpan },
    /// `#[component]` on a function whose PascalCase name is empty.
    EmptyName { span: SrcSpan },
    /// A parameter is a receiver where a binding is needed.
    ArgNotNamedBinding { label: ArgLabel, span: SrcSpan },
    /// A parameter's pattern is not a plain identifier.
    ArgPatternNotIdent { label: ArgLabel, span: SrcSpan },
    /// A parameter is a receiver where a typed parameter is needed.
    ArgNotTyped { label: ArgLabel, span: SrcSpan },
    /// A parameter's type is not a path type.
    ArgTypeNotPath { label: ArgLabel, span: SrcSpan },
    /// The function has neither two nor three parameters.
    BadSignature { span: SrcSpan },
    /// The item does not parse as what the attribute decorates (the
    /// parser's own error says why).
    UnparsableItem { attr: AttrMacro },
}

/// The word for a parameter's role.
pub open spec fn label_spec(label: ArgLabel) -> Seq<char> {
    match label {
        ArgLabel::Writer => "writer"@,
        ArgLabel::Context => "context"@,
        ArgLabel::Props => "props"@,
    }
}

/// The attribute as written.
pub open spec fn attr_name_spec(attr: AttrMacro) -> Seq<char> {
    match attr {
        AttrMacro::Component => "#[component]"@,
        AttrMacro::WithChildren => "#[with_children]"@,
        AttrMacro::RsxComponent => "#[rsx_component]"@,
    }
}

/// The message of each error.
pub open spec fn attr_error_message(e: AttrError) -> Seq<char> {
    match e {
        AttrError::UnexpectedArguments { attr } => attr_name_spec(attr)
            + " does not accept arguments"@,
        AttrError::NotNamedFields => "#[with_children] requires a struct with named fields"@,
        AttrError::GenericComponent { .. } =>
            "#[component] does not currently support generic component functions"@,
        AttrError::EmptyName { .. } => "#[component] requires a non-empty function name"@,
        AttrError::ArgNotNamedBinding { label, .. } => label_spec(label)
            + " argument must be a named binding"@,
        AttrError::ArgPatternNotIdent { label, .. } => label_spec(label)
            + " argument pattern must be an identifier"@,
        AttrError::ArgNotTyped { label, .. } => label_spec(label) + " argument must be typed"@,
        AttrError::ArgTypeNotPath { label, .. } => label_spec(label)
            + " argument type must be a path type"@,
        AttrError::BadSignature { .. } =>
            "#[component] expects function signatures of fn(writer, props) or fn(writer, ctx, props)"@,
        AttrError::UnparsableItem { attr } => attr_name_spec(attr) + " could not parse the item it decorates"@,
    }
}

impl ArgLabel {
    /// The word for the role.
    pub fn word(self) -> (r: &'static str)
        ensures
            r@ == label_spec(self),
    {
        proof {
            reveal_strlit("writer");
            reveal_strlit("context");
            reveal_strlit("props");
        }
        match self {
            ArgLabel::Writer => "writer",
            ArgLabel::Context => "context",
            ArgLabel::Props => "props",
        }
    }
}

impl AttrMacro {
    /// The attribute as written.
    pub fn written(self) -> (r: &'static str)
        ensures
            r@ == attr_name_spec(self),
    {
        proof {
            reveal_strlit("#[component]");
            reveal_strlit("#[with_children]");
            reveal_strlit("#[rsx_component]");
        }
        match self {
            AttrMacro::Component => "#[component]",
            AttrMacro::WithChildren => "#[with_children]",
            AttrMacro::RsxComponent => "#[rsx_component]",
        }
    }
}

impl AttrError {
    /// The error's message.
    pub fn message(&self) -> (r: String)
        ensures
            r@ == attr_error_message(*self),
    {
        match self {
            AttrError::UnexpectedArguments { attr } => concat_str(
                &string_of(attr.written()),
                " does not accept arguments",
            ),
            AttrError::NotNamedFields => string_of(
                "#[with_children] requires a struct with named fields",
            ),
            AttrError::GenericComponent { .. } => string_of(
                "#[component] does not currently support generic component functions",
            ),
            AttrError::EmptyName { .. } => string_of(
                "#[component] requires a non-empty function name",
            ),
            AttrError::ArgNotNamedBinding { label, .. } => concat_str(
                &string_of(label.word()),
                " argument must be a named binding",
            ),
            AttrError::ArgPatternNotIdent { label, .. } => concat_str(
                &string_of(label.word()),
                " argument pattern must be an identifier",
            ),
            AttrError::ArgNotTyped { label, .. } => concat_str(
                &string_of(label.word()),
                " argument must be typed",
            ),
            AttrError::ArgTypeNotPath { label, .. } => concat_str(
                &string_of(label.word()),
                " argument type must be a path type",
            ),
            AttrError::BadSignature { .. } => string_of(
                "#[component] expects function signatures of fn(writer, props) or fn(writer, ctx, props)",
            ),
            AttrError::UnparsableItem { attr } => concat_str(
                &string_of(attr.written()),
                " could not parse the item it decorates",
            ),
        }
    }
}

/// Refuses arguments to an attribute: each of them is written bare.
pub fn attr_arguments(attr: AttrMacro, attr_is_empty: bool) -> (r: Result<(), AttrError>)
    ensures
        attr_is_empty ==> r is Ok,
        !attr_is_empty ==> r == Err::<(), AttrError>(AttrError::UnexpectedArguments { attr }),
{
    if attr_is_empty {
        Ok(())
    } else {
        Err(AttrError::UnexpectedArguments { attr })
    }
}

/// The binding a parameter introduces.
pub open spec fn arg_binding_spec(arg: Param, label: ArgLabel) -> Result<Seq<char>, AttrError> {
    match arg {
        Param::Receiver { span } => Err(AttrError::ArgNotNamedBinding { label, span }),
        Param::Typed { pat, .. } => match pat {
            ParamPat::Ident { name, .. } => Ok(name@),
            ParamPat::Other { span } => Err(AttrError::ArgPatternNotIdent { label, span }),
        },
    }
}

/// The type of a parameter, by its handle.
pub open spec fn arg_type_spec(arg: Param, label: ArgLabel) -> Result<usize, AttrError> {
    match arg {
        Param::Receiver { span } => Err(AttrError::ArgNotTyped { label, span }),
        Param::Typed { ty, .. } => Ok(ty.handle),
    }
}

/// The path type of a parameter, with its handle.
pub open spec fn arg_type_path_spec(arg: Param, label: ArgLabel) -> Result<
    (usize, TypePathView),
    AttrError,
> {
    match arg {
        Param::Receiver { span } => Err(AttrError::ArgNotTyped { label, span }),
        Param::Typed { ty, .. } => match ty.path {
            Some(p) => Ok((ty.handle, p@)),
            None => Err(AttrError::ArgTypeNotPath { label, span: ty.span }),
        },
    }
}

/// The identifier a parameter binds; an error for a receiver or a pattern.
pub fn unwrap_pat_ident(arg: &Param, arg_label: ArgLabel) -> (r: Result<String, AttrError>)
    ensures
        match arg_binding_spec(*arg, arg_label) {
            Ok(name) => r matches Ok(n) && n@ == name,
            Err(e) => r == Err::<String, AttrError>(e),
        },
{
    match arg {
        Param::Receiver { span } => Err(AttrError::ArgNotNamedBinding { label: arg_label, span: *span }),
        Param::Typed { pat, .. } => match pat {
            ParamPat::Ident { name, .. } => Ok(name.clone()),
            ParamPat::Other { span } => Err(AttrError::ArgPatternNotIdent { label: arg_label, span: *span }),
        },
    }
}

/// The type of a parameter; an error for a receiver.
pub fn extract_type(arg: &Param, arg_label: ArgLabel) -> (r: Result<usize, AttrError>)
    ensures
        r == arg_type_spec(*arg, arg_label),
{
    match arg {
        Param::Receiver { span } => Err(AttrError::ArgNotTyped { label: arg_label, span: *span }),
        Param::Typed { ty, .. } => Ok(ty.handle),
    }
}

/// A copy of a type path.
pub fn clone_type_path(p: &TypePath) -> (r: TypePath)
    ensures
        r@ == p@,
{
    let segments = clone_strings(&p.segments);
    let r = TypePath { qself: p.qself, leading_colon: p.leading_colon, segments };
    assert(r@.segments =~= p@.segments);
    r
}

/// The path type of a parameter; an error for a receiver or a type that is
/// not a path.
pub fn extract_type_path(arg: &Param, arg_label: ArgLabel) -> (r: Result<(usize, TypePath), AttrError>)
    ensures
        match arg_type_path_spec(*arg, arg_label) {
            Ok((h, p)) => r matches Ok((rh, rp)) && rh == h && rp@ == p,
            Err(e) => r matches Err(re) && re == e,
        },
{
    match arg {
        Param::Receiver { span } => Err(AttrError::ArgNotTyped { label: arg_label, span: *span }),
        Param::Typed { ty, .. } => match &ty.path {
            Some(p) => Ok((ty.handle, clone_type_path(p))),
            None => Err(AttrError::ArgTypeNotPath { label: arg_label, span: ty.span }),
        },
    }
}

/// The fields of a struct.
#[derive(Debug)]
pub enum StructFields {
    /// `{ a: A, b: B }`, with the field names.
    Named { names: Vec<String> },
    /// `(A, B)`.
    Unnamed,
    /// No fields.
    Unit,
}

/// Whether one of the field names is `children`.
pub fn has_children_field(names: &Vec<String>) -> (r: bool)
    ensures
        r == exists|i: int| 0 <= i < names@.len() && (#[trigger] names@[i])@ == "children"@,
{
    proof {
        reveal_strlit("children");
    }
    let mut i: usize = 0;
    while i < names.len()
        invariant
            i <= names.len(),
            forall|j: int| 0 <= j < i ==> (#[trigger] names@[j])@ != "children"@,
        decreases names.len() - i,
    {
        if str_equal(names[i].as_str(), "children") {
            return true;
        }
        i = i + 1;
    }
    false
}

/// Plans `#[with_children]` on a struct: whether a `pub children: String`
/// field is appended (it is, unless the struct already has a `children`
/// field).
pub fn with_children(attr_is_empty: bool, fields: &StructFields) -> (r: Result<bool, AttrError>)
    ensures
        !attr_is_empty ==> r == Err::<bool, AttrError>(
            AttrError::UnexpectedArguments { attr: AttrMacro::WithChildren },
        ),
        attr_is_empty ==> match *fields {
            StructFields::Named { names } => r == Ok::<bool, AttrError>(
                !(exists|i: int| 0 <= i < names@.len() && (#[trigger] names@[i])@ == "children"@),
            ),
            _ => r == Err::<bool, AttrError>(AttrError::NotNamedFields),
        },
{
    if let Err(e) = attr_arguments(AttrMacro::WithChildren, attr_is_empty) {
        return Err(e);
    }
    match fields {
        StructFields::Named { names } => Ok(!has_children_field(names)),
        _ => Err(AttrError::NotNamedFields),
    }
}

/// Plans `#[rsx_component]`, which only marks the item
/// `#[allow(non_snake_case)]`: refuses arguments.
pub fn rsx_component(attr_is_empty: bool) -> (r: Result<(), AttrError>)
    ensures
        attr_is_empty <==> r is Ok,
        !attr_is_empty ==> r == Err::<(), AttrError>(
            AttrError::UnexpectedArguments { attr: AttrMacro::RsxComponent },
        ),
{
    attr_arguments(AttrMacro::RsxComponent, attr_is_empty)
}

/// A function that `#[component]` decorates, as far as it reads it.
#[derive(Debug)]
pub struct ComponentFn {
    /// Whether the signature has no generic parameters.
    pub generics_empty: bool,
    pub generics_span: SrcSpan,
    pub name: String,
    pub name_span: SrcSpan,
    pub is_async: bool,
    pub inputs: Vec<Param>,
    pub inputs_span: SrcSpan,
    /// The return type, if the signature has one.
    pub output: Option<usize>,
}

/// The type of a wrapper parameter.
#[derive(Copy, Clone, Debug, PartialEq, Eq, Structural)]
pub enum ParamType {
    /// The type of the decorated function's parameter, by its handle.
    Given(usize),
    /// The wrapper's props type.
    Props,
}

/// A parameter of the generated wrapper.
#[derive(Debug)]
pub struct WrapperParam {
    pub name: String,
    pub ty: ParamType,
}

/// The plan of `#[component]`: the item is kept as written; then, if
/// `props_alias` is set, `pub type props_name = <that type>;`; then the
/// wrapper `pub fn wrapper_name(params) -> output` (async when `is_async`)
/// that calls the decorated function with the parameters in order (and
/// awaits it when `is_async`).
#[derive(Debug)]
pub struct ComponentPlan {
    pub fn_name: String,
    pub name_span: SrcSpan,
    pub wrapper_name: String,
    pub props_name: String,
    pub params: Vec<WrapperParam>,
    pub is_async: bool,
    pub output: Option<usize>,
    pub props_alias: Option<usize>,
}

/// View of a component plan.
pub struct ComponentPlanView {
    pub fn_name: Seq<char>,
    pub name_span: SrcSpan,
    pub wrapper_name: Seq<char>,
    pub props_name: Seq<char>,
    pub params: Seq<(Seq<char>, ParamType)>,
    pub is_async: bool,
    pub output: Option<usize>,
    pub props_alias: Option<usize>,
}

impl View for ComponentPlan {
    type V = ComponentPlanView;

    open spec fn view(&self) -> ComponentPlanView {
        ComponentPlanView {
            fn_name: self.fn_name@,
            name_span: self.name_span,
            wrapper_name: self.wrapper_name@,
            props_name: self.props_name@,
            params: self.params@.map_values(|p: WrapperParam| (p.name@, p.ty)),
            is_async: self.is_async,
            output: self.output,
            props_alias: self.props_alias,
        }
    }
}

/// The wrapper parameters and the props type of a `fn(writer, props)`
/// signature.
pub open spec fn params2_spec(w: Param, p: Param) -> Result<
    (Seq<(Seq<char>, ParamType)>, (usize, TypePathView)),
    AttrError,
> {
    match arg_binding_spec(w, ArgLabel::Writer) {
        Err(e) => Err(e),
        Ok(wn) => match arg_type_spec(w, ArgLabel::Writer) {
            Err(e) => Err(e),
            Ok(wt) => match arg_binding_spec(p, ArgLabel::Props) {
                Err(e) => Err(e),
                Ok(pn) => match arg_type_path_spec(p, ArgLabel::Props) {
                    Err(e) => Err(e),
                    Ok(pt) => Ok((seq![(wn, ParamType::Given(wt)), (pn, ParamType::Props)], pt)),
                },
            },
        },
    }
}

/// The wrapper parameters and the props type of a `fn(writer, ctx, props)`
/// signature.
pub open spec fn params3_spec(w: Param, c: Param, p: Param) -> Result<
    (Seq<(Seq<char>, ParamType)>, (usize, TypePathView)),
    AttrError,
> {
    match arg_binding_spec(w, ArgLabel::Writer) {
        Err(e) => Err(e),
        Ok(wn) => match arg_type_spec(w, ArgLabel::Writer) {
            Err(e) => Err(e),
            Ok(wt) => match arg_binding_spec(c, ArgLabel::Context) {
                Err(e) => Err(e),
                Ok(cn) => match arg_type_spec(c, ArgLabel::Context) {
                    Err(e) => Err(e),
                    Ok(ct) => match arg_binding_spec(p, ArgLabel::Props) {
                        Err(e) => Err(e),
                        Ok(pn) => match arg_type_path_spec(p, ArgLabel::Props) {
                            Err(e) => Err(e),
                            Ok(pt) => Ok(
                                (
                                    seq![
                                        (wn, ParamType::Given(wt)),
                                        (cn, ParamType::Given(ct)),
                                        (pn, ParamType::Props),
                                    ],
                                    pt,
                                ),
                            ),
                        },
                    },
                },
            },
        },
    }
}

/// Whether the props type gets an alias under the wrapper's props name: it
/// is a bare one-segment path whose name differs from that props name.
pub open spec fn emits_props_alias(p: TypePathView, props_name: Seq<char>) -> bool {
    !p.qself && !p.leading_colon && p.segments.len() == 1 && p.segments[0] != props_name
}

/// What `#[component]` makes of a function.
///
/// Arguments, generic parameters and a name without letters are refused.
/// The wrapper is named in PascalCase after the function, its props type
/// `{PascalCase}Props`. A `fn(writer, props)` or `fn(writer, ctx, props)`
/// becomes a wrapper with the same parameters whose props parameter has the
/// wrapper's props type; any other arity is refused.
pub open spec fn component_spec(attr_is_empty: bool, f: ComponentFn) -> Result<ComponentPlanView, AttrError> {
    let pascal = pascal_case_spec(f.name@);
    let props_name = pascal + "Props"@;
    if !attr_is_empty {
        Err(AttrError::UnexpectedArguments { attr: AttrMacro::Component })
    } else if !f.generics_empty {
        Err(AttrError::GenericComponent { span: f.generics_span })
    } else if pascal.len() == 0 {
        Err(AttrError::EmptyName { span: f.name_span })
    } else {
        let parsed = if f.inputs@.len() == 2 {
            params2_spec(f.inputs@[0], f.inputs@[1])
        } else if f.inputs@.len() == 3 {
            params3_spec(f.inputs@[0], f.inputs@[1], f.inputs@[2])
        } else {
            Err(AttrError::BadSignature { span: f.inputs_span })
        };
        match parsed {
            Err(e) => Err(e),
            Ok((params, (handle, path))) => Ok(
                ComponentPlanView {
                    fn_name: f.name@,
                    name_span: f.name_span,
                    wrapper_name: pascal,
                    props_name,
                    params,
                    is_async: f.is_async,
                    output: f.output,
                    props_alias: if emits_props_alias(path, props_name) {
                        Some(handle)
                    } else {
                        None
                    },
                },
            ),
        }
    }
}

/// A wrapper parameter.
fn param(name: String, ty: ParamType) -> (r: WrapperParam)
    ensures
        r.name@ == name@,
        r.ty == ty,
{
    WrapperParam { name, ty }
}

/// The parameters and props type of a `fn(writer, props)` signature.
fn params2(w: &Param, p: &Param) -> (r: Result<(Vec<WrapperParam>, (usize, TypePath)), AttrError>)
    ensures
        match params2_spec(*w, *p) {
            Ok((ps, (h, t))) => r matches Ok((rps, (rh, rt))) && rps@.map_values(
                |x: WrapperParam| (x.name@, x.ty),
            ) == ps && rh == h && rt@ == t,
            Err(e) => r matches Err(re) && re == e,
        },
{
    let out_ident = match unwrap_pat_ident(w, ArgLabel::Writer) {
        Ok(ident) => ident,
        Err(err) => return Err(err),
    };
    let out_ty = match extract_type(w, ArgLabel::Writer) {
        Ok(ty) => ty,
        Err(err) => return Err(err),
    };
    let props_ident = match unwrap_pat_ident(p, ArgLabel::Props) {
        Ok(ident) => ident,
        Err(err) => return Err(err),
    };
    let props_ty = match extract_type_path(p, ArgLabel::Props) {
        Ok(ty) => ty,
        Err(err) => return Err(err),
    };
    let params = vec![param(out_ident, ParamType::Given(out_ty)), param(props_ident, ParamType::Props)];
    assert(params@.map_values(|x: WrapperParam| (x.name@, x.ty)) =~= params2_spec(*w, *p)->Ok_0.0);
    Ok((params, props_ty))
}

/// The parameters and props type of a `fn(writer, ctx, props)` signature.
fn params3(w: &Param, c: &Param, p: &Param) -> (r: Result<(Vec<WrapperParam>, (usize, TypePath)), AttrError>)
    ensures
        match params3_spec(*w, *c, *p) {
            Ok((ps, (h, t))) => r matches Ok((rps, (rh, rt))) && rps@.map_values(
                |x: WrapperParam| (x.name@, x.ty),
            ) == ps && rh == h && rt@ == t,
            Err(e) => r matches Err(re) && re == e,
        },
{
    let out_ident = match unwrap_pat_ident(w, ArgLabel::Writer) {
        Ok(ident) => ident,
        Err(err) => return Err(err),
    };
    let out_ty = match extract_type(w, ArgLabel::Writer) {
        Ok(ty) => ty,
        Err(err) => return Err(err),
    };
    let ctx_ident = match unwrap_pat_ident(c, ArgLabel::Context) {
        Ok(ident) => ident,
        Err(err) => return Err(err),
    };
    let ctx_ty = match extract_type(c, ArgLabel::Context) {
        Ok(ty) => ty,
        Err(err) => return Err(err),
    };
    let props_ident = match unwrap_pat_ident(p, ArgLabel::Props) {
        Ok(ident) => ident,
        Err(err) => return Err(err),
    };
    let props_ty = match extract_type_path(p, ArgLabel::Props) {
        Ok(ty) => ty,
        Err(err) => return Err(err),
    };
    let params = vec![
        param(out_ident, ParamType::Given(out_ty)),
        param(ctx_ident, ParamType::Given(ctx_ty)),
        param(props_ident, ParamType::Props),
    ];
    assert(params@.map_values(|x: WrapperParam| (x.name@, x.ty)) =~= params3_spec(*w, *c, *p)->Ok_0.0);
    Ok((params, props_ty))
}

/// Plans `#[component]` on a function.
pub fn component(attr_is_empty: bool, function: &ComponentFn) -> (r: Result<ComponentPlan, AttrError>)
    ensures
        match component_spec(attr_is_empty, *function) {
            Ok(plan) => r matches Ok(p) && p@ == plan,
            Err(e) => r matches Err(re) && re == e,
        },
{
    if let Err(e) = attr_arguments(AttrMacro::Component, attr_is_empty) {
        return Err(e);
    }
    if !function.generics_empty {
        return Err(AttrError::GenericComponent { span: function.generics_span });
    }
    let pascal_name = to_pascal_case(function.name.as_str());
    if pascal_name.as_str().is_empty() {
        return Err(AttrError::EmptyName { span: function.name_span });
    }
    let props_name = concat_str(&pascal_name, "Props");
    proof {
        reveal_strlit("Props");
    }
    let parsed = if function.inputs.len() == 2 {
        params2(&function.inputs[0], &function.inputs[1])
    } else if function.inputs.len() == 3 {
        params3(&function.inputs[0], &function.inputs[1], &function.inputs[2])
    } else {
        Err(AttrError::BadSignature { span: function.inputs_span })
    };
    match parsed {
        Err(e) => Err(e),
        Ok((params, (handle, path))) => {
            let alias = !path.qself && !path.leading_colon && path.segments.len() == 1
                && !str_equal(path.segments[0].as_str(), props_name.as_str());
            Ok(
                ComponentPlan {
                    fn_name: function.name.clone(),
                    name_span: function.name_span,
                    wrapper_name: pascal_name,
                    props_name,
                    params,
                    is_async: function.is_async,
                    output: function.output,
                    props_alias: if alias {
                        Some(handle)
                    } else {
                        None
                    },
                },
            )
        },
    }
}

} // verus!
