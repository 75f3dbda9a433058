//! The per-entity emitters and the generation pass: filters the bundle by
//! target package, resolves references, emits typed declarations into the
//! namespace tree, and renders the tree.

use vstd::prelude::*;
use vstd::string::StringExecFns;
use crate::bundle::{
    ComponentDefinition, ComponentDataDefinition, ComponentDataDefinitionView,
    ComponentDefinitionView, CommandDefinitionView, EnumDefinition, EnumDefinitionView,
    EnumValueDefinitionView, EventDefinitionView, FieldDefinitionView, FieldTypeDefinition,
    FieldTypeDefinitionView, GenerationError, GenerationErrorView, Identifier, IdentifierView,
    SchemaBundle, SchemaBundleV1, SchemaBundleV1View, TypeDefinition, TypeDefinitionView,
    TypeReference, EnumReference, ValueTypeReference, ValueTypeReferenceView, deps_view, find_enum,
    find_type, is_prefix, spec_reference_path, str_is_prefix,
};
use crate::casing::{camel_case, camel_of, snake_of};
use crate::module_tree::{
    Module, ModuleView, spec_insert_item, spec_new_module, spec_render, strs_view,
};
use crate::text;

verus! {

/// Every identifier of the bundle's declarations has at least its simple
/// name as a path segment; a loaded bundle guarantees this.
pub open spec fn bundle_wf(b: SchemaBundleV1View) -> bool {
    &&& forall|i: int|
        0 <= i < b.enum_definitions.len() ==> (#[trigger] b.enum_definitions[i]).identifier.path.len() >= 1
    &&& forall|i: int|
        0 <= i < b.type_definitions.len() ==> (#[trigger] b.type_definitions[i]).identifier.path.len() >= 1
    &&& forall|i: int|
        0 <= i < b.component_definitions.len() ==> (
        #[trigger] b.component_definitions[i]).identifier.path.len() >= 1
}

/// The text a value type resolves to: the native scalar of a primitive,
/// or the reference path of the declared enum or type.
pub open spec fn spec_resolve_value_type(
    ty: ValueTypeReferenceView,
    b: SchemaBundleV1View,
    deps: Seq<(Seq<char>, Seq<char>)>,
) -> Result<Seq<char>, GenerationErrorView> {
    match ty {
        ValueTypeReferenceView::Primitive(p) => p.spec_scalar_name(),
        ValueTypeReferenceView::Enum(q) => match find_enum(b.enum_definitions, q) {
            Some(i) => spec_reference_path(b.enum_definitions[i].identifier, deps),
            None => Err(GenerationErrorView::MissingDefinition(q)),
        },
        ValueTypeReferenceView::Type(q) => match find_type(b.type_definitions, q) {
            Some(i) => spec_reference_path(b.type_definitions[i].identifier, deps),
            None => Err(GenerationErrorView::MissingDefinition(q)),
        },
    }
}

fn resolve_value_type(
    ty: &ValueTypeReference,
    bundle: &SchemaBundleV1,
    dependencies: &Vec<(String, String)>,
) -> (r: Result<String, GenerationError>)
    requires
        bundle_wf(bundle@),
    ensures
        (match spec_resolve_value_type(ty@, bundle@, deps_view(dependencies@)) {
            Ok(s) => r matches Ok(x) && x@ == s,
            Err(e) => r matches Err(x) && x@ == e,
        }),
{
    match ty {
        ValueTypeReference::Primitive(p) => p.scalar_name(),
        ValueTypeReference::Enum(enum_ref) => {
            let definition = bundle.get_referenced_enum(enum_ref)?;
            proof {
                crate::bundle::lemma_find_enum_bounds(
                    bundle@.enum_definitions,
                    enum_ref.qualified_name@,
                );
                match find_enum(bundle@.enum_definitions, enum_ref.qualified_name@) {
                    Some(i) => {
                        assert(bundle@.enum_definitions[i].identifier.path.len() >= 1);
                    },
                    None => {},
                }
            }
            definition.identifier.reference_path(dependencies)
        },
        ValueTypeReference::Type(type_ref) => {
            let definition = bundle.get_referenced_type(type_ref)?;
            proof {
                crate::bundle::lemma_find_type_bounds(
                    bundle@.type_definitions,
                    type_ref.qualified_name@,
                );
                match find_type(bundle@.type_definitions, type_ref.qualified_name@) {
                    Some(i) => {
                        assert(bundle@.type_definitions[i].identifier.path.len() >= 1);
                    },
                    None => {},
                }
            }
            definition.identifier.reference_path(dependencies)
        },
    }
}

/// The text a field shape resolves to: the value type itself, or its
/// nullable, sequence, or key-sorted mapping wrapper.
pub open spec fn spec_resolve_field_type(
    ft: FieldTypeDefinitionView,
    b: SchemaBundleV1View,
    deps: Seq<(Seq<char>, Seq<char>)>,
) -> Result<Seq<char>, GenerationErrorView> {
    match ft {
        FieldTypeDefinitionView::Singular { ty } => spec_resolve_value_type(ty, b, deps),
        FieldTypeDefinitionView::Optional { inner_type } => {
            match spec_resolve_value_type(inner_type, b, deps) {
                Ok(t) => Ok("Option<"@ + t + ">"@),
                Err(e) => Err(e),
            }
        },
        FieldTypeDefinitionView::List { inner_type } => {
            match spec_resolve_value_type(inner_type, b, deps) {
                Ok(t) => Ok("Vec<"@ + t + ">"@),
                Err(e) => Err(e),
            }
        },
        FieldTypeDefinitionView::Mapping { key_type, value_type } => {
            match (
                spec_resolve_value_type(key_type, b, deps),
                spec_resolve_value_type(value_type, b, deps),
            ) {
                (Ok(k), Ok(v)) => Ok("std::collections::BTreeMap<"@ + k + ", "@ + v + ">"@),
                (Err(e), _) => Err(e),
                (_, Err(e)) => Err(e),
            }
        },
    }
}

fn resolve_field_type(
    ft: &FieldTypeDefinition,
    bundle: &SchemaBundleV1,
    dependencies: &Vec<(String, String)>,
) -> (r: Result<String, GenerationError>)
    requires
        bundle_wf(bundle@),
    ensures
        (match spec_resolve_field_type(ft@, bundle@, deps_view(dependencies@)) {
            Ok(s) => r matches Ok(x) && x@ == s,
            Err(e) => r matches Err(x) && x@ == e,
        }),
{
    match ft {
        FieldTypeDefinition::Singular { ty } => resolve_value_type(ty, bundle, dependencies),
        FieldTypeDefinition::Optional { inner_type } => {
            let t = resolve_value_type(inner_type, bundle, dependencies)?;
            let mut out = String::from_str("Option<");
            out.append(t.as_str());
            out.append(">");
            Ok(out)
        },
        FieldTypeDefinition::List { inner_type } => {
            let t = resolve_value_type(inner_type, bundle, dependencies)?;
            let mut out = String::from_str("Vec<");
            out.append(t.as_str());
            out.append(">");
            Ok(out)
        },
        FieldTypeDefinition::Mapping { key_type, value_type } => {
            let k = resolve_value_type(key_type, bundle, dependencies)?;
            let v = resolve_value_type(value_type, bundle, dependencies)?;
            let mut out = String::from_str("std::collections::BTreeMap<");
            out.append(k.as_str());
            out.append(", ");
            out.append(v.as_str());
            out.append(">");
            Ok(out)
        },
    }
}

/// One record field of a value struct.
pub open spec fn spec_field_decl(
    f: FieldDefinitionView,
    b: SchemaBundleV1View,
    deps: Seq<(Seq<char>, Seq<char>)>,
) -> Result<Seq<char>, GenerationErrorView> {
    match spec_resolve_field_type(f.ty, b, deps) {
        Ok(t) => Ok("pub "@ + f.identifier.name + ": "@ + t + ", "@),
        Err(e) => Err(e),
    }
}

/// The record fields of a value struct, in declaration order; the first
/// unresolvable field aborts generation.
pub open spec fn spec_fields_text(
    fields: Seq<FieldDefinitionView>,
    b: SchemaBundleV1View,
    deps: Seq<(Seq<char>, Seq<char>)>,
) -> Result<Seq<char>, GenerationErrorView>
    decreases fields.len(),
{
    if fields.len() == 0 {
        Ok(Seq::empty())
    } else {
        match spec_field_decl(fields[0], b, deps) {
            Err(e) => Err(e),
            Ok(t) => match spec_fields_text(fields.skip(1), b, deps) {
                Err(e) => Err(e),
                Ok(rest) => Ok(t + rest),
            },
        }
    }
}

fn fields_text(
    fields: &Vec<crate::bundle::FieldDefinition>,
    bundle: &SchemaBundleV1,
    dependencies: &Vec<(String, String)>,
) -> (r: Result<String, GenerationError>)
    requires
        bundle_wf(bundle@),
    ensures
        (match spec_fields_text(fields_view(fields@), bundle@, deps_view(dependencies@)) {
            Ok(s) => r matches Ok(x) && x@ == s,
            Err(e) => r matches Err(x) && x@ == e,
        }),
{
    let ghost fv = fields_view(fields@);
    let mut out = String::new();
    let mut i: usize = 0;
    proof {
        assert(fv.skip(0) =~= fv);
    }
    while i < fields.len()
        invariant
            i <= fields@.len(),
            fv == fields_view(fields@),
            fv.len() == fields@.len(),
            bundle_wf(bundle@),
            (match spec_fields_text(fv, bundle@, deps_view(dependencies@)) {
                Ok(s) => spec_fields_text(fv.skip(i as int), bundle@, deps_view(dependencies@))
                    matches Ok(rest) && s == out@ + rest,
                Err(e) => spec_fields_text(fv.skip(i as int), bundle@, deps_view(dependencies@))
                    matches Err(e2) && e == e2,
            }),
        decreases fields@.len() - i,
    {
        proof {
            assert(fv.skip(i as int)[0] == fv[i as int]);
            assert(fv.skip(i as int).skip(1) =~= fv.skip(i + 1));
            assert(fv[i as int] == fields@[i as int]@);
        }
        let t = match resolve_field_type(&fields[i].ty, bundle, dependencies) {
            Ok(t) => t,
            Err(e) => {
                return Err(e);
            },
        };
        out.append("pub ");
        out.append(fields[i].identifier.name.as_str());
        out.append(": ");
        out.append(t.as_str());
        out.append(", ");
        i = i + 1;
    }
    proof {
        assert(fv.skip(fv.len() as int) =~= Seq::<FieldDefinitionView>::empty());
        assert(out@ + Seq::<char>::empty() =~= out@);
    }
    Ok(out)
}

pub open spec fn fields_view(fields: Seq<crate::bundle::FieldDefinition>) -> Seq<
    FieldDefinitionView,
> {
    Seq::new(fields.len(), |i: int| fields[i]@)
}

/// The nullable record fields of an update struct, in declaration order.
pub open spec fn spec_option_fields_text(
    fields: Seq<FieldDefinitionView>,
    b: SchemaBundleV1View,
    deps: Seq<(Seq<char>, Seq<char>)>,
) -> Result<Seq<char>, GenerationErrorView>
    decreases fields.len(),
{
    if fields.len() == 0 {
        Ok(Seq::empty())
    } else {
        match spec_resolve_field_type(fields[0].ty, b, deps) {
            Err(e) => Err(e),
            Ok(t) => match spec_option_fields_text(fields.skip(1), b, deps) {
                Err(e) => Err(e),
                Ok(rest) => Ok(
                    "pub "@ + fields[0].identifier.name + ": Option<"@ + t + ">, "@ + rest,
                ),
            },
        }
    }
}

fn option_fields_text(
    fields: &Vec<crate::bundle::FieldDefinition>,
    bundle: &SchemaBundleV1,
    dependencies: &Vec<(String, String)>,
) -> (r: Result<String, GenerationError>)
    requires
        bundle_wf(bundle@),
    ensures
        (match spec_option_fields_text(fields_view(fields@), bundle@, deps_view(dependencies@)) {
            Ok(s) => r matches Ok(x) && x@ == s,
            Err(e) => r matches Err(x) && x@ == e,
        }),
{
    let ghost fv = fields_view(fields@);
    let mut out = String::new();
    let mut i: usize = 0;
    proof {
        assert(fv.skip(0) =~= fv);
    }
    while i < fields.len()
        invariant
            i <= fields@.len(),
            fv == fields_view(fields@),
            fv.len() == fields@.len(),
            bundle_wf(bundle@),
            (match spec_option_fields_text(fv, bundle@, deps_view(dependencies@)) {
                Ok(s) => spec_option_fields_text(
                    fv.skip(i as int),
                    bundle@,
                    deps_view(dependencies@),
                ) matches Ok(rest) && s == out@ + rest,
                Err(e) => spec_option_fields_text(
                    fv.skip(i as int),
                    bundle@,
                    deps_view(dependencies@),
                ) matches Err(e2) && e == e2,
            }),
        decreases fields@.len() - i,
    {
        proof {
            assert(fv.skip(i as int)[0] == fv[i as int]);
            assert(fv.skip(i as int).skip(1) =~= fv.skip(i + 1));
            assert(fv[i as int] == fields@[i as int]@);
        }
        let t = match resolve_field_type(&fields[i].ty, bundle, dependencies) {
            Ok(t) => t,
            Err(e) => {
                return Err(e);
            },
        };
        out.append("pub ");
        out.append(fields[i].identifier.name.as_str());
        out.append(": Option<");
        out.append(t.as_str());
        out.append(">, ");
        i = i + 1;
    }
    proof {
        assert(fv.skip(fv.len() as int) =~= Seq::<FieldDefinitionView>::empty());
        assert(out@ + Seq::<char>::empty() =~= out@);
    }
    Ok(out)
}

pub open spec fn events_view(
    events: Seq<crate::bundle::ComponentDefinition_EventDefinition>,
) -> Seq<EventDefinitionView> {
    Seq::new(events.len(), |i: int| events[i]@)
}

/// One event buffer field per declared event of a component's update.
pub open spec fn spec_event_fields_text(
    events: Seq<EventDefinitionView>,
    b: SchemaBundleV1View,
    deps: Seq<(Seq<char>, Seq<char>)>,
) -> Result<Seq<char>, GenerationErrorView>
    decreases events.len(),
{
    if events.len() == 0 {
        Ok(Seq::empty())
    } else {
        match spec_resolve_value_type(events[0].type_reference, b, deps) {
            Err(e) => Err(e),
            Ok(t) => match spec_event_fields_text(events.skip(1), b, deps) {
                Err(e) => Err(e),
                Ok(rest) => Ok("pub "@ + events[0].identifier.name + ": Vec<"@ + t + ">, "@ + rest),
            },
        }
    }
}

fn event_fields_text(
    events: &Vec<crate::bundle::ComponentDefinition_EventDefinition>,
    bundle: &SchemaBundleV1,
    dependencies: &Vec<(String, String)>,
) -> (r: Result<String, GenerationError>)
    requires
        bundle_wf(bundle@),
    ensures
        (match spec_event_fields_text(events_view(events@), bundle@, deps_view(dependencies@)) {
            Ok(s) => r matches Ok(x) && x@ == s,
            Err(e) => r matches Err(x) && x@ == e,
        }),
{
    let ghost ev = events_view(events@);
    let mut out = String::new();
    let mut i: usize = 0;
    proof {
        assert(ev.skip(0) =~= ev);
    }
    while i < events.len()
        invariant
            i <= events@.len(),
            ev == events_view(events@),
            ev.len() == events@.len(),
            bundle_wf(bundle@),
            (match spec_event_fields_text(ev, bundle@, deps_view(dependencies@)) {
                Ok(s) => spec_event_fields_text(ev.skip(i as int), bundle@, deps_view(dependencies@))
                    matches Ok(rest) && s == out@ + rest,
                Err(e) => spec_event_fields_text(
                    ev.skip(i as int),
                    bundle@,
                    deps_view(dependencies@),
                ) matches Err(e2) && e == e2,
            }),
        decreases events@.len() - i,
    {
        proof {
            assert(ev.skip(i as int)[0] == ev[i as int]);
            assert(ev.skip(i as int).skip(1) =~= ev.skip(i + 1));
            assert(ev[i as int] == events@[i as int]@);
        }
        let t = match resolve_value_type(&events[i].type_reference, bundle, dependencies) {
            Ok(t) => t,
            Err(e) => {
                return Err(e);
            },
        };
        out.append("pub ");
        out.append(events[i].identifier.name.as_str());
        out.append(": Vec<");
        out.append(t.as_str());
        out.append(">, ");
        i = i + 1;
    }
    proof {
        assert(ev.skip(ev.len() as int) =~= Seq::<EventDefinitionView>::empty());
        assert(out@ + Seq::<char>::empty() =~= out@);
    }
    Ok(out)
}

/// The per-field merge statements: a present update field overwrites the
/// target field as a whole.
pub open spec fn spec_merge_lines(fields: Seq<FieldDefinitionView>) -> Seq<char>
    decreases fields.len(),
{
    if fields.len() == 0 {
        Seq::empty()
    } else {
        spec_merge_lines(fields.drop_last()) + "if let Some(value) = update."@
            + fields.last().identifier.name + " { self."@ + fields.last().identifier.name
            + " = value; } "@
    }
}

fn merge_lines(fields: &Vec<crate::bundle::FieldDefinition>) -> (r: String)
    ensures
        r@ == spec_merge_lines(fields_view(fields@)),
{
    let ghost fv = fields_view(fields@);
    let mut out = String::new();
    let mut i: usize = 0;
    proof {
        assert(fv.take(0) =~= Seq::<FieldDefinitionView>::empty());
    }
    while i < fields.len()
        invariant
            i <= fields@.len(),
            fv == fields_view(fields@),
            fv.len() == fields@.len(),
            out@ == spec_merge_lines(fv.take(i as int)),
        decreases fields@.len() - i,
    {
        out.append("if let Some(value) = update.");
        out.append(fields[i].identifier.name.as_str());
        out.append(" { self.");
        out.append(fields[i].identifier.name.as_str());
        out.append(" = value; } ");
        proof {
            assert(fv.take(i + 1).drop_last() =~= fv.take(i as int));
            assert(fv.take(i + 1).last() == fv[i as int]);
            assert(fv[i as int] == fields@[i as int]@);
        }
        i = i + 1;
    }
    proof {
        assert(fv.take(fv.len() as int) =~= fv);
    }
    out
}

/// The per-event merge statements: event buffers append.
pub open spec fn spec_event_merge_lines(events: Seq<EventDefinitionView>) -> Seq<char>
    decreases events.len(),
{
    if events.len() == 0 {
        Seq::empty()
    } else {
        spec_event_merge_lines(events.drop_last()) + "self."@ + events.last().identifier.name
            + ".extend(update."@ + events.last().identifier.name + "); "@
    }
}

fn event_merge_lines(events: &Vec<crate::bundle::ComponentDefinition_EventDefinition>) -> (r:
    String)
    ensures
        r@ == spec_event_merge_lines(events_view(events@)),
{
    let ghost ev = events_view(events@);
    let mut out = String::new();
    let mut i: usize = 0;
    proof {
        assert(ev.take(0) =~= Seq::<EventDefinitionView>::empty());
    }
    while i < events.len()
        invariant
            i <= events@.len(),
            ev == events_view(events@),
            ev.len() == events@.len(),
            out@ == spec_event_merge_lines(ev.take(i as int)),
        decreases events@.len() - i,
    {
        out.append("self.");
        out.append(events[i].identifier.name.as_str());
        out.append(".extend(update.");
        out.append(events[i].identifier.name.as_str());
        out.append("); ");
        proof {
            assert(ev.take(i + 1).drop_last() =~= ev.take(i as int));
            assert(ev.take(i + 1).last() == ev[i as int]);
            assert(ev[i as int] == events@[i as int]@);
        }
        i = i + 1;
    }
    proof {
        assert(ev.take(ev.len() as int) =~= ev);
    }
    out
}

pub open spec fn commands_view(
    cmds: Seq<crate::bundle::ComponentDefinition_CommandDefinition>,
) -> Seq<CommandDefinitionView> {
    Seq::new(cmds.len(), |i: int| cmds[i]@)
}

/// One tagged-union variant per declared command, wrapping the command's
/// request or response payload type.
pub open spec fn spec_cmd_variant_lines(
    cmds: Seq<CommandDefinitionView>,
    use_response: bool,
    b: SchemaBundleV1View,
    deps: Seq<(Seq<char>, Seq<char>)>,
) -> Result<Seq<char>, GenerationErrorView>
    decreases cmds.len(),
{
    if cmds.len() == 0 {
        Ok(Seq::empty())
    } else {
        let payload = if use_response {
            cmds[0].response_type
        } else {
            cmds[0].request_type
        };
        match spec_resolve_value_type(payload, b, deps) {
            Err(e) => Err(e),
            Ok(t) => match spec_cmd_variant_lines(cmds.skip(1), use_response, b, deps) {
                Err(e) => Err(e),
                Ok(rest) => Ok(camel_of(cmds[0].identifier.name) + "("@ + t + "), "@ + rest),
            },
        }
    }
}

fn cmd_variant_lines(
    cmds: &Vec<crate::bundle::ComponentDefinition_CommandDefinition>,
    use_response: bool,
    bundle: &SchemaBundleV1,
    dependencies: &Vec<(String, String)>,
) -> (r: Result<String, GenerationError>)
    requires
        bundle_wf(bundle@),
    ensures
        (match spec_cmd_variant_lines(
            commands_view(cmds@),
            use_response,
            bundle@,
            deps_view(dependencies@),
        ) {
            Ok(s) => r matches Ok(x) && x@ == s,
            Err(e) => r matches Err(x) && x@ == e,
        }),
{
    let ghost cv = commands_view(cmds@);
    let mut out = String::new();
    let mut i: usize = 0;
    proof {
        assert(cv.skip(0) =~= cv);
    }
    while i < cmds.len()
        invariant
            i <= cmds@.len(),
            cv == commands_view(cmds@),
            cv.len() == cmds@.len(),
            bundle_wf(bundle@),
            (match spec_cmd_variant_lines(cv, use_response, bundle@, deps_view(dependencies@)) {
                Ok(s) => spec_cmd_variant_lines(
                    cv.skip(i as int),
                    use_response,
                    bundle@,
                    deps_view(dependencies@),
                ) matches Ok(rest) && s == out@ + rest,
                Err(e) => spec_cmd_variant_lines(
                    cv.skip(i as int),
                    use_response,
                    bundle@,
                    deps_view(dependencies@),
                ) matches Err(e2) && e == e2,
            }),
        decreases cmds@.len() - i,
    {
        proof {
            assert(cv.skip(i as int)[0] == cv[i as int]);
            assert(cv.skip(i as int).skip(1) =~= cv.skip(i + 1));
            assert(cv[i as int] == cmds@[i as int]@);
        }
        let payload = if use_response {
            &cmds[i].response_type
        } else {
            &cmds[i].request_type
        };
        let t = match resolve_value_type(payload, bundle, dependencies) {
            Ok(t) => t,
            Err(e) => {
                return Err(e);
            },
        };
        out.append(camel_case(cmds[i].identifier.name.as_str()).as_str());
        out.append("(");
        out.append(t.as_str());
        out.append("), ");
        i = i + 1;
    }
    proof {
        assert(cv.skip(cv.len() as int) =~= Seq::<CommandDefinitionView>::empty());
        assert(out@ + Seq::<char>::empty() =~= out@);
    }
    Ok(out)
}

/// One match arm per command mapping its variant to its numeric index.
pub open spec fn spec_cmd_index_lines(
    cmds: Seq<CommandDefinitionView>,
    prefix: Seq<char>,
) -> Seq<char>
    decreases cmds.len(),
{
    if cmds.len() == 0 {
        Seq::empty()
    } else {
        spec_cmd_index_lines(cmds.drop_last(), prefix) + prefix + camel_of(
            cmds.last().identifier.name,
        ) + "(_) => Some("@ + text::dec_digits(cmds.last().command_index as nat) + "), "@
    }
}

fn cmd_index_lines(
    cmds: &Vec<crate::bundle::ComponentDefinition_CommandDefinition>,
    prefix: &str,
) -> (r: String)
    ensures
        r@ == spec_cmd_index_lines(commands_view(cmds@), prefix@),
{
    let ghost cv = commands_view(cmds@);
    let mut out = String::new();
    let mut i: usize = 0;
    proof {
        assert(cv.take(0) =~= Seq::<CommandDefinitionView>::empty());
    }
    while i < cmds.len()
        invariant
            i <= cmds@.len(),
            cv == commands_view(cmds@),
            cv.len() == cmds@.len(),
            out@ == spec_cmd_index_lines(cv.take(i as int), prefix@),
        decreases cmds@.len() - i,
    {
        out.append(prefix);
        out.append(camel_case(cmds[i].identifier.name.as_str()).as_str());
        out.append("(_) => Some(");
        out.append(text::u32_to_dec(cmds[i].command_index).as_str());
        out.append("), ");
        proof {
            assert(cv.take(i + 1).drop_last() =~= cv.take(i as int));
            assert(cv.take(i + 1).last() == cv[i as int]);
            assert(cv[i as int] == cmds@[i as int]@);
        }
        i = i + 1;
    }
    proof {
        assert(cv.take(cv.len() as int) =~= cv);
    }
    out
}

/// One match arm per command mapping its numeric index back to its name.
pub open spec fn spec_cmd_name_lines(cmds: Seq<CommandDefinitionView>) -> Seq<char>
    decreases cmds.len(),
{
    if cmds.len() == 0 {
        Seq::empty()
    } else {
        spec_cmd_name_lines(cmds.drop_last()) + text::dec_digits(
            cmds.last().command_index as nat,
        ) + " => Some(\""@ + camel_of(cmds.last().identifier.name) + "\"), "@
    }
}

fn cmd_name_lines(cmds: &Vec<crate::bundle::ComponentDefinition_CommandDefinition>) -> (r: String)
    ensures
        r@ == spec_cmd_name_lines(commands_view(cmds@)),
{
    let ghost cv = commands_view(cmds@);
    let mut out = String::new();
    let mut i: usize = 0;
    proof {
        assert(cv.take(0) =~= Seq::<CommandDefinitionView>::empty());
    }
    while i < cmds.len()
        invariant
            i <= cmds@.len(),
            cv == commands_view(cmds@),
            cv.len() == cmds@.len(),
            out@ == spec_cmd_name_lines(cv.take(i as int)),
        decreases cmds@.len() - i,
    {
        out.append(text::u32_to_dec(cmds[i].command_index).as_str());
        out.append(" => Some(\"");
        out.append(camel_case(cmds[i].identifier.name.as_str()).as_str());
        out.append("\"), ");
        proof {
            assert(cv.take(i + 1).drop_last() =~= cv.take(i as int));
            assert(cv.take(i + 1).last() == cv[i as int]);
            assert(cv[i as int] == cmds@[i as int]@);
        }
        i = i + 1;
    }
    proof {
        assert(cv.take(cv.len() as int) =~= cv);
    }
    out
}


/// The per-field merge statements of an update merged into an update: a
/// field present in the incoming update overwrites, an absent one keeps
/// the earlier writer.
pub open spec fn spec_update_merge_lines(fields: Seq<FieldDefinitionView>) -> Seq<char>
    decreases fields.len(),
{
    if fields.len() == 0 {
        Seq::empty()
    } else {
        spec_update_merge_lines(fields.drop_last()) + "if update."@
            + fields.last().identifier.name + ".is_some() { self."@
            + fields.last().identifier.name + " = update."@ + fields.last().identifier.name
            + "; } "@
    }
}

fn update_merge_lines(fields: &Vec<crate::bundle::FieldDefinition>) -> (r: String)
    ensures
        r@ == spec_update_merge_lines(fields_view(fields@)),
{
    let ghost fv = fields_view(fields@);
    let mut out = String::new();
    let mut i: usize = 0;
    proof {
        assert(fv.take(0) =~= Seq::<FieldDefinitionView>::empty());
    }
    while i < fields.len()
        invariant
            i <= fields@.len(),
            fv == fields_view(fields@),
            fv.len() == fields@.len(),
            out@ == spec_update_merge_lines(fv.take(i as int)),
        decreases fields@.len() - i,
    {
        out.append("if update.");
        out.append(fields[i].identifier.name.as_str());
        out.append(".is_some() { self.");
        out.append(fields[i].identifier.name.as_str());
        out.append(" = update.");
        out.append(fields[i].identifier.name.as_str());
        out.append("; } ");
        proof {
            assert(fv.take(i + 1).drop_last() =~= fv.take(i as int));
            assert(fv.take(i + 1).last() == fv[i as int]);
            assert(fv[i as int] == fields@[i as int]@);
        }
        i = i + 1;
    }
    proof {
        assert(fv.take(fv.len() as int) =~= fv);
    }
    out
}

/// One decode arm per command: its numeric index selects its variant,
/// with the payload decoded from the carried object.
pub open spec fn spec_cmd_from_arms(
    cmds: Seq<CommandDefinitionView>,
    use_response: bool,
    prefix: Seq<char>,
    carrier: Seq<char>,
    b: SchemaBundleV1View,
    deps: Seq<(Seq<char>, Seq<char>)>,
) -> Result<Seq<char>, GenerationErrorView>
    decreases cmds.len(),
{
    if cmds.len() == 0 {
        Ok(Seq::empty())
    } else {
        let payload = if use_response {
            cmds[0].response_type
        } else {
            cmds[0].request_type
        };
        match spec_resolve_value_type(payload, b, deps) {
            Err(e) => Err(e),
            Ok(t) => match spec_cmd_from_arms(cmds.skip(1), use_response, prefix, carrier, b, deps) {
                Err(e) => Err(e),
                Ok(rest) => Ok(
                    text::dec_digits(cmds[0].command_index as nat) + " => Ok("@ + prefix
                        + camel_of(cmds[0].identifier.name) + "("@ + t + "::from_type(&"@ + carrier
                        + ")?)), "@ + rest,
                ),
            },
        }
    }
}

#[verifier::rlimit(60)]
fn cmd_from_arms(
    cmds: &Vec<crate::bundle::ComponentDefinition_CommandDefinition>,
    use_response: bool,
    prefix: &str,
    carrier: &str,
    bundle: &SchemaBundleV1,
    dependencies: &Vec<(String, String)>,
) -> (r: Result<String, GenerationError>)
    requires
        bundle_wf(bundle@),
    ensures
        (match spec_cmd_from_arms(
            commands_view(cmds@),
            use_response,
            prefix@,
            carrier@,
            bundle@,
            deps_view(dependencies@),
        ) {
            Ok(s) => r matches Ok(x) && x@ == s,
            Err(e) => r matches Err(x) && x@ == e,
        }),
{
    let ghost cv = commands_view(cmds@);
    let mut out = String::new();
    let mut i: usize = 0;
    proof {
        assert(cv.skip(0) =~= cv);
    }
    while i < cmds.len()
        invariant
            i <= cmds@.len(),
            cv == commands_view(cmds@),
            cv.len() == cmds@.len(),
            bundle_wf(bundle@),
            (match spec_cmd_from_arms(
                cv,
                use_response,
                prefix@,
                carrier@,
                bundle@,
                deps_view(dependencies@),
            ) {
                Ok(s) => spec_cmd_from_arms(
                    cv.skip(i as int),
                    use_response,
                    prefix@,
                    carrier@,
                    bundle@,
                    deps_view(dependencies@),
                ) matches Ok(rest) && s == out@ + rest,
                Err(e) => spec_cmd_from_arms(
                    cv.skip(i as int),
                    use_response,
                    prefix@,
                    carrier@,
                    bundle@,
                    deps_view(dependencies@),
                ) matches Err(e2) && e == e2,
            }),
        decreases cmds@.len() - i,
    {
        proof {
            assert(cv.skip(i as int)[0] == cv[i as int]);
            assert(cv.skip(i as int).skip(1) =~= cv.skip(i + 1));
            assert(cv[i as int] == cmds@[i as int]@);
        }
        let payload = if use_response {
            &cmds[i].response_type
        } else {
            &cmds[i].request_type
        };
        let t = match resolve_value_type(payload, bundle, dependencies) {
            Ok(t) => t,
            Err(e) => {
                return Err(e);
            },
        };
        out.append(text::u32_to_dec(cmds[i].command_index).as_str());
        out.append(" => Ok(");
        out.append(prefix);
        out.append(camel_case(cmds[i].identifier.name.as_str()).as_str());
        out.append("(");
        out.append(t.as_str());
        out.append("::from_type(&");
        out.append(carrier);
        out.append(")?)), ");
        i = i + 1;
    }
    proof {
        assert(cv.skip(cv.len() as int) =~= Seq::<CommandDefinitionView>::empty());
        assert(out@ + Seq::<char>::empty() =~= out@);
    }
    Ok(out)
}

/// One serialize arm per command: its variant writes the payload into
/// the carried object.
pub open spec fn spec_cmd_to_arms(
    cmds: Seq<CommandDefinitionView>,
    use_response: bool,
    prefix: Seq<char>,
    b: SchemaBundleV1View,
    deps: Seq<(Seq<char>, Seq<char>)>,
) -> Result<Seq<char>, GenerationErrorView>
    decreases cmds.len(),
{
    if cmds.len() == 0 {
        Ok(Seq::empty())
    } else {
        let payload = if use_response {
            cmds[0].response_type
        } else {
            cmds[0].request_type
        };
        match spec_resolve_value_type(payload, b, deps) {
            Err(e) => Err(e),
            Ok(t) => match spec_cmd_to_arms(cmds.skip(1), use_response, prefix, b, deps) {
                Err(e) => Err(e),
                Ok(rest) => Ok(
                    prefix + camel_of(cmds[0].identifier.name)
                        + "(data) => { "@ + t + "::to_type(data, &mut serialized.object)?; }, "@
                        + rest,
                ),
            },
        }
    }
}

#[verifier::rlimit(60)]
fn cmd_to_arms(
    cmds: &Vec<crate::bundle::ComponentDefinition_CommandDefinition>,
    use_response: bool,
    prefix: &str,
    bundle: &SchemaBundleV1,
    dependencies: &Vec<(String, String)>,
) -> (r: Result<String, GenerationError>)
    requires
        bundle_wf(bundle@),
    ensures
        (match spec_cmd_to_arms(
            commands_view(cmds@),
            use_response,
            prefix@,
            bundle@,
            deps_view(dependencies@),
        ) {
            Ok(s) => r matches Ok(x) && x@ == s,
            Err(e) => r matches Err(x) && x@ == e,
        }),
{
    let ghost cv = commands_view(cmds@);
    let mut out = String::new();
    let mut i: usize = 0;
    proof {
        assert(cv.skip(0) =~= cv);
    }
    while i < cmds.len()
        invariant
            i <= cmds@.len(),
            cv == commands_view(cmds@),
            cv.len() == cmds@.len(),
            bundle_wf(bundle@),
            (match spec_cmd_to_arms(cv, use_response, prefix@, bundle@, deps_view(dependencies@)) {
                Ok(s) => spec_cmd_to_arms(
                    cv.skip(i as int),
                    use_response,
                    prefix@,
                    bundle@,
                    deps_view(dependencies@),
                ) matches Ok(rest) && s == out@ + rest,
                Err(e) => spec_cmd_to_arms(
                    cv.skip(i as int),
                    use_response,
                    prefix@,
                    bundle@,
                    deps_view(dependencies@),
                ) matches Err(e2) && e == e2,
            }),
        decreases cmds@.len() - i,
    {
        proof {
            assert(cv.skip(i as int)[0] == cv[i as int]);
            assert(cv.skip(i as int).skip(1) =~= cv.skip(i + 1));
            assert(cv[i as int] == cmds@[i as int]@);
        }
        let payload = if use_response {
            &cmds[i].response_type
        } else {
            &cmds[i].request_type
        };
        let t = match resolve_value_type(payload, bundle, dependencies) {
            Ok(t) => t,
            Err(e) => {
                return Err(e);
            },
        };
        out.append(prefix);
        out.append(camel_case(cmds[i].identifier.name.as_str()).as_str());
        out.append("(data) => { ");
        out.append(t.as_str());
        out.append("::to_type(data, &mut serialized.object)?; }, ");
        i = i + 1;
    }
    proof {
        assert(cv.skip(cv.len() as int) =~= Seq::<CommandDefinitionView>::empty());
        assert(out@ + Seq::<char>::empty() =~= out@);
    }
    Ok(out)
}

pub open spec fn enum_values_view(
    vals: Seq<crate::bundle::EnumValueDefinition>,
) -> Seq<EnumValueDefinitionView> {
    Seq::new(vals.len(), |i: int| vals[i]@)
}

/// One variant per declared enum value, in declaration order.
pub open spec fn spec_enum_variant_lines(vals: Seq<EnumValueDefinitionView>) -> Seq<char>
    decreases vals.len(),
{
    if vals.len() == 0 {
        Seq::empty()
    } else {
        spec_enum_variant_lines(vals.drop_last()) + vals.last().identifier.name + ", "@
    }
}

/// One match arm per enum value, from its number to its variant.
pub open spec fn spec_enum_from_lines(
    vals: Seq<EnumValueDefinitionView>,
    ename: Seq<char>,
) -> Seq<char>
    decreases vals.len(),
{
    if vals.len() == 0 {
        Seq::empty()
    } else {
        spec_enum_from_lines(vals.drop_last(), ename) + text::dec_digits(vals.last().value as nat)
            + " => Some("@ + ename + "::"@ + vals.last().identifier.name + "), "@
    }
}

/// One match arm per enum value, from its variant to its number.
pub open spec fn spec_enum_as_lines(
    vals: Seq<EnumValueDefinitionView>,
    ename: Seq<char>,
) -> Seq<char>
    decreases vals.len(),
{
    if vals.len() == 0 {
        Seq::empty()
    } else {
        spec_enum_as_lines(vals.drop_last(), ename) + ename + "::"@ + vals.last().identifier.name
            + " => "@ + text::dec_digits(vals.last().value as nat) + ", "@
    }
}

/// The declarations one enum emits: the tagged enumeration, and its two
/// pure conversions to and from the numeric wire representation.  A
/// number outside the declared set converts to nothing.
pub open spec fn spec_enum_items(e: EnumDefinitionView) -> Seq<Seq<char>> {
    let name = e.identifier.name;
    seq![
        "pub enum "@ + name + " { "@ + spec_enum_variant_lines(e.value_definitions) + "}"@,
        "impl "@ + name + " { pub fn from_u32(value: u32) -> Option<"@ + name
            + "> { match value { "@ + spec_enum_from_lines(e.value_definitions, name)
            + "_ => None, } } pub fn as_u32(self) -> u32 { match self { "@ + spec_enum_as_lines(
            e.value_definitions,
            name,
        ) + "} } }"@,
    ]
}

fn enum_items(e: &EnumDefinition) -> (r: Vec<String>)
    ensures
        strs_view(r@) == spec_enum_items(e@),
{
    let ghost vv = enum_values_view(e.value_definitions@);
    let mut variants = String::new();
    let mut from_lines = String::new();
    let mut as_lines = String::new();
    let mut i: usize = 0;
    proof {
        assert(vv.take(0) =~= Seq::<EnumValueDefinitionView>::empty());
        assert(vv =~= e@.value_definitions);
    }
    while i < e.value_definitions.len()
        invariant
            i <= e.value_definitions@.len(),
            vv == enum_values_view(e.value_definitions@),
            vv.len() == e.value_definitions@.len(),
            variants@ == spec_enum_variant_lines(vv.take(i as int)),
            from_lines@ == spec_enum_from_lines(vv.take(i as int), e@.identifier.name),
            as_lines@ == spec_enum_as_lines(vv.take(i as int), e@.identifier.name),
        decreases e.value_definitions@.len() - i,
    {
        let vname = e.value_definitions[i].identifier.name.as_str();
        let number = text::u32_to_dec(e.value_definitions[i].value);
        variants.append(vname);
        variants.append(", ");
        from_lines.append(number.as_str());
        from_lines.append(" => Some(");
        from_lines.append(e.identifier.name.as_str());
        from_lines.append("::");
        from_lines.append(vname);
        from_lines.append("), ");
        as_lines.append(e.identifier.name.as_str());
        as_lines.append("::");
        as_lines.append(vname);
        as_lines.append(" => ");
        as_lines.append(number.as_str());
        as_lines.append(", ");
        proof {
            assert(vv.take(i + 1).drop_last() =~= vv.take(i as int));
            assert(vv.take(i + 1).last() == vv[i as int]);
            assert(vv[i as int] == e.value_definitions@[i as int]@);
        }
        i = i + 1;
    }
    proof {
        assert(vv.take(vv.len() as int) =~= vv);
    }
    let mut item1 = String::from_str("pub enum ");
    item1.append(e.identifier.name.as_str());
    item1.append(" { ");
    item1.append(variants.as_str());
    item1.append("}");
    let mut item2 = String::from_str("impl ");
    item2.append(e.identifier.name.as_str());
    item2.append(" { pub fn from_u32(value: u32) -> Option<");
    item2.append(e.identifier.name.as_str());
    item2.append("> { match value { ");
    item2.append(from_lines.as_str());
    item2.append("_ => None, } } pub fn as_u32(self) -> u32 { match self { ");
    item2.append(as_lines.as_str());
    item2.append("} } }");
    let mut r: Vec<String> = Vec::new();
    r.push(item1);
    r.push(item2);
    proof {
        assert(strs_view(r@) =~= spec_enum_items(e@));
    }
    r
}

/// The declaration one structured type emits: a record with one field per
/// declared field.
pub open spec fn spec_type_item(
    t: TypeDefinitionView,
    b: SchemaBundleV1View,
    deps: Seq<(Seq<char>, Seq<char>)>,
) -> Result<Seq<char>, GenerationErrorView> {
    match spec_fields_text(t.field_definitions, b, deps) {
        Ok(f) => Ok("pub struct "@ + t.identifier.name + " { "@ + f + "}"@),
        Err(e) => Err(e),
    }
}

fn type_item(
    t: &TypeDefinition,
    bundle: &SchemaBundleV1,
    dependencies: &Vec<(String, String)>,
) -> (r: Result<String, GenerationError>)
    requires
        bundle_wf(bundle@),
    ensures
        (match spec_type_item(t@, bundle@, deps_view(dependencies@)) {
            Ok(s) => r matches Ok(x) && x@ == s,
            Err(e) => r matches Err(x) && x@ == e,
        }),
{
    proof {
        assert(fields_view(t.field_definitions@) =~= t@.field_definitions);
    }
    let f = fields_text(&t.field_definitions, bundle, dependencies)?;
    let mut out = String::from_str("pub struct ");
    out.append(t.identifier.name.as_str());
    out.append(" { ");
    out.append(f.as_str());
    out.append("}");
    Ok(out)
}

/// The declarations one component emits: the full-value record, the
/// all-nullable update record with one event buffer per declared event,
/// the whole-field merges over (value, update) and (update, update), the
/// command request and response unions, the two-way mapping between
/// command indices and variants, and the dispatch that serializes and
/// deserializes the unions by that same index.
pub open spec fn spec_component_items(
    c: ComponentDefinitionView,
    b: SchemaBundleV1View,
    deps: Seq<(Seq<char>, Seq<char>)>,
) -> Result<Seq<Seq<char>>, GenerationErrorView> {
    let name = c.identifier.name;
    let value_item = match c.data_definition {
        ComponentDataDefinitionView::Inline(fields) => match spec_fields_text(fields, b, deps) {
            Ok(f) => Ok("pub struct "@ + name + " { "@ + f + "}"@),
            Err(e) => Err(e),
        },
        ComponentDataDefinitionView::TypeReference(q) => {
            match spec_resolve_value_type(ValueTypeReferenceView::Type(q), b, deps) {
                Ok(t) => Ok("pub struct "@ + name + "("@ + t + ");"@),
                Err(e) => Err(e),
            }
        },
    };
    let update_fields = match c.data_definition {
        ComponentDataDefinitionView::Inline(fields) => spec_option_fields_text(fields, b, deps),
        ComponentDataDefinitionView::TypeReference(q) => {
            match spec_resolve_value_type(ValueTypeReferenceView::Type(q), b, deps) {
                Ok(t) => Ok("pub value: Option<"@ + t + ">, "@),
                Err(e) => Err(e),
            }
        },
    };
    let merge_body = match c.data_definition {
        ComponentDataDefinitionView::Inline(fields) => spec_merge_lines(fields),
        ComponentDataDefinitionView::TypeReference(_) => {
            "if let Some(value) = update.value { self.0 = value; } "@
        },
    };
    let update_merge_body = match c.data_definition {
        ComponentDataDefinitionView::Inline(fields) => spec_update_merge_lines(fields),
        ComponentDataDefinitionView::TypeReference(_) => {
            "if update.value.is_some() { self.value = update.value; } "@
        },
    };
    match (value_item, update_fields) {
        (Err(e), _) => Err(e),
        (_, Err(e)) => Err(e),
        (Ok(vi), Ok(uf)) => match spec_event_fields_text(c.event_definitions, b, deps) {
            Err(e) => Err(e),
            Ok(ef) => match (
                spec_cmd_variant_lines(c.command_definitions, false, b, deps),
                spec_cmd_variant_lines(c.command_definitions, true, b, deps),
            ) {
                (Err(e), _) => Err(e),
                (_, Err(e)) => Err(e),
                (Ok(reqv), Ok(respv)) => match (
                    spec_cmd_from_arms(
                        c.command_definitions,
                        false,
                        name + "CommandRequest::"@,
                        "request.object"@,
                        b,
                        deps,
                    ),
                    spec_cmd_from_arms(
                        c.command_definitions,
                        true,
                        name + "CommandResponse::"@,
                        "response.object"@,
                        b,
                        deps,
                    ),
                    spec_cmd_to_arms(c.command_definitions, false, name + "CommandRequest::"@, b, deps),
                    spec_cmd_to_arms(c.command_definitions, true, name + "CommandResponse::"@, b, deps),
                ) {
                    (Err(e), _, _, _) => Err(e),
                    (_, Err(e), _, _) => Err(e),
                    (_, _, Err(e), _) => Err(e),
                    (_, _, _, Err(e)) => Err(e),
                    (Ok(from_req), Ok(from_resp), Ok(to_req), Ok(to_resp)) => Ok(
                        seq![
                            vi,
                            "pub struct "@ + name + "Update { "@ + uf + ef + "}"@,
                            "impl "@ + name + " { pub fn merge(&mut self, update: "@ + name
                                + "Update) { "@ + merge_body + spec_event_merge_lines(
                                c.event_definitions,
                            ) + "} }"@,
                            "impl "@ + name + "Update { pub fn merge(&mut self, update: "@ + name
                                + "Update) { "@ + update_merge_body + spec_event_merge_lines(
                                c.event_definitions,
                            ) + "} }"@,
                            "pub enum "@ + name + "CommandRequest { "@ + reqv + "}"@,
                            "pub enum "@ + name + "CommandResponse { "@ + respv + "}"@,
                            "impl "@ + name + " { pub fn request_command_index(request: &"@ + name
                                + "CommandRequest) -> Option<u32> { match request { "@
                                + spec_cmd_index_lines(
                                c.command_definitions,
                                name + "CommandRequest::"@,
                            ) + "} } pub fn response_command_index(response: &"@ + name
                                + "CommandResponse) -> Option<u32> { match response { "@
                                + spec_cmd_index_lines(
                                c.command_definitions,
                                name + "CommandResponse::"@,
                            )
                                + "} } pub fn command_name_of_index(command_index: u32) -> Option<&'static str> { match command_index { "@
                                + spec_cmd_name_lines(c.command_definitions) + "_ => None, } } }"@,
                            "impl "@ + name
                                + " { pub fn from_request(command_index: u32, request: &SchemaCommandRequest) -> Result<"@
                                + name + "CommandRequest, DecodeError> { match command_index { "@
                                + from_req
                                + "_ => Err(DecodeError::UnknownCommandIndex { component: \""@
                                + name
                                + "\", command_index }), } } pub fn from_response(command_index: u32, response: &SchemaCommandResponse) -> Result<"@
                                + name + "CommandResponse, DecodeError> { match command_index { "@
                                + from_resp
                                + "_ => Err(DecodeError::UnknownCommandIndex { component: \""@
                                + name + "\", command_index }), } } pub fn to_request(request: &"@
                                + name
                                + "CommandRequest) -> Result<SchemaCommandRequest, DecodeError> { let mut serialized = SchemaCommandRequest::new(); match request { "@
                                + to_req
                                + "} Ok(serialized) } pub fn to_response(response: &"@ + name
                                + "CommandResponse) -> Result<SchemaCommandResponse, DecodeError> { let mut serialized = SchemaCommandResponse::new(); match response { "@
                                + to_resp + "} Ok(serialized) } }"@,
                        ],
                    ),
                },
            },
        },
    }
}

#[verifier::rlimit(100)]
fn component_items(
    c: &ComponentDefinition,
    bundle: &SchemaBundleV1,
    dependencies: &Vec<(String, String)>,
) -> (r: Result<Vec<String>, GenerationError>)
    requires
        bundle_wf(bundle@),
    ensures
        (match spec_component_items(c@, bundle@, deps_view(dependencies@)) {
            Ok(items) => r matches Ok(v) && strs_view(v@) == items,
            Err(e) => r matches Err(x) && x@ == e,
        }),
{
    let name = c.identifier.name.as_str();
    let (value_item, update_fields, merge_body, update_merge_body) = match &c.data_definition {
        ComponentDataDefinition::Inline(fields) => {
            proof {
                assert(fields_view(fields@) == c@.data_definition->Inline_0);
            }
            let f = fields_text(fields, bundle, dependencies)?;
            let mut vi = String::from_str("pub struct ");
            vi.append(name);
            vi.append(" { ");
            vi.append(f.as_str());
            vi.append("}");
            let uf = option_fields_text(fields, bundle, dependencies)?;
            let mb = merge_lines(fields);
            let umb = update_merge_lines(fields);
            (vi, uf, mb, umb)
        },
        ComponentDataDefinition::TypeReference(type_ref) => {
            let vt = ValueTypeReference::Type(TypeReference {
                qualified_name: type_ref.qualified_name.clone(),
            });
            let t = resolve_value_type(&vt, bundle, dependencies)?;
            let mut vi = String::from_str("pub struct ");
            vi.append(name);
            vi.append("(");
            vi.append(t.as_str());
            vi.append(");");
            let mut uf = String::from_str("pub value: Option<");
            uf.append(t.as_str());
            uf.append(">, ");
            let mb = String::from_str("if let Some(value) = update.value { self.0 = value; } ");
            let umb = String::from_str("if update.value.is_some() { self.value = update.value; } ");
            (vi, uf, mb, umb)
        },
    };
    proof {
        assert(events_view(c.event_definitions@) =~= c@.event_definitions);
        assert(commands_view(c.command_definitions@) =~= c@.command_definitions);
    }
    let ef = event_fields_text(&c.event_definitions, bundle, dependencies)?;
    let reqv = cmd_variant_lines(&c.command_definitions, false, bundle, dependencies)?;
    let respv = cmd_variant_lines(&c.command_definitions, true, bundle, dependencies)?;
    let mut update_item = String::from_str("pub struct ");
    update_item.append(name);
    update_item.append("Update { ");
    update_item.append(update_fields.as_str());
    update_item.append(ef.as_str());
    update_item.append("}");
    let mut merge_item = String::from_str("impl ");
    merge_item.append(name);
    merge_item.append(" { pub fn merge(&mut self, update: ");
    merge_item.append(name);
    merge_item.append("Update) { ");
    merge_item.append(merge_body.as_str());
    merge_item.append(event_merge_lines(&c.event_definitions).as_str());
    merge_item.append("} }");
    let mut update_merge_item = String::from_str("impl ");
    update_merge_item.append(name);
    update_merge_item.append("Update { pub fn merge(&mut self, update: ");
    update_merge_item.append(name);
    update_merge_item.append("Update) { ");
    update_merge_item.append(update_merge_body.as_str());
    update_merge_item.append(event_merge_lines(&c.event_definitions).as_str());
    update_merge_item.append("} }");
    let mut req_item = String::from_str("pub enum ");
    req_item.append(name);
    req_item.append("CommandRequest { ");
    req_item.append(reqv.as_str());
    req_item.append("}");
    let mut resp_item = String::from_str("pub enum ");
    resp_item.append(name);
    resp_item.append("CommandResponse { ");
    resp_item.append(respv.as_str());
    resp_item.append("}");
    let mut req_prefix = String::new();
    req_prefix.append(name);
    req_prefix.append("CommandRequest::");
    let mut resp_prefix = String::new();
    resp_prefix.append(name);
    resp_prefix.append("CommandResponse::");
    proof {
        assert(req_prefix@ =~= c@.identifier.name + "CommandRequest::"@);
        assert(resp_prefix@ =~= c@.identifier.name + "CommandResponse::"@);
    }
    let mut dispatch_item = String::from_str("impl ");
    dispatch_item.append(name);
    dispatch_item.append(" { pub fn request_command_index(request: &");
    dispatch_item.append(name);
    dispatch_item.append("CommandRequest) -> Option<u32> { match request { ");
    dispatch_item.append(cmd_index_lines(&c.command_definitions, req_prefix.as_str()).as_str());
    dispatch_item.append("} } pub fn response_command_index(response: &");
    dispatch_item.append(name);
    dispatch_item.append("CommandResponse) -> Option<u32> { match response { ");
    dispatch_item.append(cmd_index_lines(&c.command_definitions, resp_prefix.as_str()).as_str());
    dispatch_item.append(
        "} } pub fn command_name_of_index(command_index: u32) -> Option<&'static str> { match command_index { ",
    );
    dispatch_item.append(cmd_name_lines(&c.command_definitions).as_str());
    dispatch_item.append("_ => None, } } }");
    let from_req = cmd_from_arms(
        &c.command_definitions,
        false,
        req_prefix.as_str(),
        "request.object",
        bundle,
        dependencies,
    )?;
    let from_resp = cmd_from_arms(
        &c.command_definitions,
        true,
        resp_prefix.as_str(),
        "response.object",
        bundle,
        dependencies,
    )?;
    let to_req = cmd_to_arms(&c.command_definitions, false, req_prefix.as_str(), bundle, dependencies)?;
    let to_resp = cmd_to_arms(
        &c.command_definitions,
        true,
        resp_prefix.as_str(),
        bundle,
        dependencies,
    )?;
    let mut serde_item = String::from_str("impl ");
    serde_item.append(name);
    serde_item.append(
        " { pub fn from_request(command_index: u32, request: &SchemaCommandRequest) -> Result<",
    );
    serde_item.append(name);
    serde_item.append("CommandRequest, DecodeError> { match command_index { ");
    serde_item.append(from_req.as_str());
    serde_item.append("_ => Err(DecodeError::UnknownCommandIndex { component: \"");
    serde_item.append(name);
    serde_item.append(
        "\", command_index }), } } pub fn from_response(command_index: u32, response: &SchemaCommandResponse) -> Result<",
    );
    serde_item.append(name);
    serde_item.append("CommandResponse, DecodeError> { match command_index { ");
    serde_item.append(from_resp.as_str());
    serde_item.append("_ => Err(DecodeError::UnknownCommandIndex { component: \"");
    serde_item.append(name);
    serde_item.append("\", command_index }), } } pub fn to_request(request: &");
    serde_item.append(name);
    serde_item.append(
        "CommandRequest) -> Result<SchemaCommandRequest, DecodeError> { let mut serialized = SchemaCommandRequest::new(); match request { ",
    );
    serde_item.append(to_req.as_str());
    serde_item.append("} Ok(serialized) } pub fn to_response(response: &");
    serde_item.append(name);
    serde_item.append(
        "CommandResponse) -> Result<SchemaCommandResponse, DecodeError> { let mut serialized = SchemaCommandResponse::new(); match response { ",
    );
    serde_item.append(to_resp.as_str());
    serde_item.append("} Ok(serialized) } }");
    let mut r: Vec<String> = Vec::new();
    r.push(value_item);
    r.push(update_item);
    r.push(merge_item);
    r.push(update_merge_item);
    r.push(req_item);
    r.push(resp_item);
    r.push(dispatch_item);
    r.push(serde_item);
    proof {
        assert(strs_view(r@) =~= spec_component_items(
            c@,
            bundle@,
            deps_view(dependencies@),
        )->Ok_0);
    }
    Ok(r)
}

/// The import lines injected into every generated namespace: one per
/// dependency import root, in table order.
pub open spec fn spec_prelude(deps: Seq<(Seq<char>, Seq<char>)>) -> Seq<Seq<char>> {
    Seq::new(deps.len(), |i: int| "use "@ + deps[i].1 + ";"@)
}

fn prelude_lines(dependencies: &Vec<(String, String)>) -> (r: Vec<String>)
    ensures
        strs_view(r@) == spec_prelude(deps_view(dependencies@)),
{
    let mut r: Vec<String> = Vec::new();
    let mut i: usize = 0;
    while i < dependencies.len()
        invariant
            i <= dependencies@.len(),
            r@.len() == i,
            forall|k: int|
                0 <= k < i ==> (#[trigger] r@[k])@ == "use "@ + dependencies@[k].1@ + ";"@,
        decreases dependencies@.len() - i,
    {
        let mut line = String::from_str("use ");
        line.append(dependencies[i].1.as_str());
        line.append(";");
        r.push(line);
        i = i + 1;
    }
    proof {
        assert(strs_view(r@) =~= spec_prelude(deps_view(dependencies@)));
    }
    r
}

/// The namespace an entity's declarations land in: its identifier's
/// namespace segments in the module-naming convention.
pub open spec fn spec_namespace(id: IdentifierView) -> Seq<Seq<char>> {
    Seq::new((id.path.len() - 1) as nat, |i: int| snake_of(id.path[i]))
}

/// Inserting a list of declarations inserts each in order, into the node
/// the path names.
pub open spec fn spec_insert_items(
    m: ModuleView,
    path: Seq<Seq<char>>,
    items: Seq<Seq<char>>,
    prelude: Seq<Seq<char>>,
) -> ModuleView
    decreases items.len(),
{
    if items.len() == 0 {
        m
    } else {
        spec_insert_items(
            spec_insert_item(m, path, 0, items[0], prelude),
            path,
            items.skip(1),
            prelude,
        )
    }
}

fn insert_items(
    m: &mut Module,
    path: &Vec<String>,
    items: &Vec<String>,
    default_prelude: &Vec<String>,
)
    ensures
        final(m)@ == spec_insert_items(
            old(m)@,
            strs_view(path@),
            strs_view(items@),
            strs_view(default_prelude@),
        ),
{
    let ghost iv = strs_view(items@);
    let ghost m0 = m@;
    let mut i: usize = 0;
    proof {
        assert(iv.skip(0) =~= iv);
    }
    while i < items.len()
        invariant
            i <= items@.len(),
            iv == strs_view(items@),
            iv.len() == items@.len(),
            spec_insert_items(m@, strs_view(path@), iv.skip(i as int), strs_view(default_prelude@))
                == spec_insert_items(m0, strs_view(path@), iv, strs_view(default_prelude@)),
        decreases items@.len() - i,
    {
        proof {
            assert(iv.skip(i as int)[0] == iv[i as int]);
            assert(iv.skip(i as int).skip(1) =~= iv.skip(i + 1));
            assert(iv[i as int] == items@[i as int]@);
        }
        m.insert_item(path, 0, items[i].clone(), default_prelude);
        i = i + 1;
    }
    proof {
        assert(iv.skip(iv.len() as int) =~= Seq::<Seq<char>>::empty());
    }
}

pub open spec fn components_view(
    comps: Seq<ComponentDefinition>,
) -> Seq<ComponentDefinitionView> {
    Seq::new(comps.len(), |i: int| comps[i]@)
}

pub open spec fn types_view(types: Seq<TypeDefinition>) -> Seq<TypeDefinitionView> {
    Seq::new(types.len(), |i: int| types[i]@)
}

pub open spec fn enums_view(enums: Seq<EnumDefinition>) -> Seq<EnumDefinitionView> {
    Seq::new(enums.len(), |i: int| enums[i]@)
}

/// Emits the components whose qualified name the target package prefixes,
/// in bundle order, into the tree.
pub open spec fn spec_gen_components(
    m: ModuleView,
    comps: Seq<ComponentDefinitionView>,
    package: Seq<char>,
    b: SchemaBundleV1View,
    deps: Seq<(Seq<char>, Seq<char>)>,
    prelude: Seq<Seq<char>>,
) -> Result<ModuleView, GenerationErrorView>
    decreases comps.len(),
{
    if comps.len() == 0 {
        Ok(m)
    } else if !is_prefix(package, comps[0].identifier.qualified_name) {
        spec_gen_components(m, comps.skip(1), package, b, deps, prelude)
    } else {
        match spec_component_items(comps[0], b, deps) {
            Err(e) => Err(e),
            Ok(items) => spec_gen_components(
                spec_insert_items(m, spec_namespace(comps[0].identifier), items, prelude),
                comps.skip(1),
                package,
                b,
                deps,
                prelude,
            ),
        }
    }
}

/// Emits the structured types of the target package, in bundle order.
pub open spec fn spec_gen_types(
    m: ModuleView,
    types: Seq<TypeDefinitionView>,
    package: Seq<char>,
    b: SchemaBundleV1View,
    deps: Seq<(Seq<char>, Seq<char>)>,
    prelude: Seq<Seq<char>>,
) -> Result<ModuleView, GenerationErrorView>
    decreases types.len(),
{
    if types.len() == 0 {
        Ok(m)
    } else if !is_prefix(package, types[0].identifier.qualified_name) {
        spec_gen_types(m, types.skip(1), package, b, deps, prelude)
    } else {
        match spec_type_item(types[0], b, deps) {
            Err(e) => Err(e),
            Ok(item) => spec_gen_types(
                spec_insert_items(m, spec_namespace(types[0].identifier), seq![item], prelude),
                types.skip(1),
                package,
                b,
                deps,
                prelude,
            ),
        }
    }
}

/// Emits the enums of the target package, in bundle order.
pub open spec fn spec_gen_enums(
    m: ModuleView,
    enums: Seq<EnumDefinitionView>,
    package: Seq<char>,
    prelude: Seq<Seq<char>>,
) -> ModuleView
    decreases enums.len(),
{
    if enums.len() == 0 {
        m
    } else if !is_prefix(package, enums[0].identifier.qualified_name) {
        spec_gen_enums(m, enums.skip(1), package, prelude)
    } else {
        spec_gen_enums(
            spec_insert_items(
                m,
                spec_namespace(enums[0].identifier),
                spec_enum_items(enums[0]),
                prelude,
            ),
            enums.skip(1),
            package,
            prelude,
        )
    }
}

/// The empty root the generated namespaces hang off.
pub open spec fn spec_root() -> ModuleView {
    ModuleView {
        prelude: Seq::empty(),
        items: Seq::empty(),
        children: Seq::empty(),
    }
}

/// What generation returns for a supported bundle payload: the rendered
/// tree of every component, type, and enum of the target package, with
/// cross-package references resolved through the dependency table.
pub open spec fn spec_generate(
    b: SchemaBundleV1View,
    package: Seq<char>,
    deps: Seq<(Seq<char>, Seq<char>)>,
) -> Result<Seq<char>, GenerationErrorView> {
    let prelude = spec_prelude(deps);
    match spec_gen_components(spec_root(), b.component_definitions, package, b, deps, prelude) {
        Err(e) => Err(e),
        Ok(m1) => match spec_gen_types(m1, b.type_definitions, package, b, deps, prelude) {
            Err(e) => Err(e),
            Ok(m2) => Ok(spec_render(spec_gen_enums(m2, b.enum_definitions, package, prelude))),
        },
    }
}

/// Generates the source text of one target package from a loaded bundle:
/// load order does not matter, the rendered output is a pure function of
/// the bundle, the package, and the dependency table.
#[verifier::rlimit(60)]
pub fn generate(
    bundle: &SchemaBundle,
    package: &str,
    dependencies: &Vec<(String, String)>,
) -> (r: Result<String, GenerationError>)
    requires
        bundle.v1 matches Some(b) ==> bundle_wf(b@),
    ensures
        bundle.v1 is None ==> (r matches Err(e) && e@
            == GenerationErrorView::UnsupportedBundleVersion),
        bundle.v1 matches Some(b) ==> (match spec_generate(b@, package@, deps_view(dependencies@)) {
            Ok(s) => r matches Ok(x) && x@ == s,
            Err(e) => r matches Err(x) && x@ == e,
        }),
{
    let b = match &bundle.v1 {
        Some(b) => b,
        None => {
            return Err(GenerationError::UnsupportedBundleVersion);
        },
    };
    let ghost deps = deps_view(dependencies@);
    let ghost prelude_v = spec_prelude(deps);
    let default_prelude = prelude_lines(dependencies);
    let mut root = Module::new(Vec::new());
    proof {
        assert(strs_view(Seq::<String>::empty()) =~= Seq::<Seq<char>>::empty());
        assert(root@ == spec_root());
    }
    let ghost cv = components_view(b.component_definitions@);
    let ghost m0 = root@;
    let mut i: usize = 0;
    proof {
        assert(cv.skip(0) =~= cv);
    }
    while i < b.component_definitions.len()
        invariant
            i <= b.component_definitions@.len(),
            cv == components_view(b.component_definitions@),
            cv.len() == b.component_definitions@.len(),
            bundle_wf(b@),
            b@.component_definitions == cv,
            bundle.v1 == Some(*b),
            m0 == spec_root(),
            deps == deps_view(dependencies@),
            prelude_v == spec_prelude(deps),
            strs_view(default_prelude@) == prelude_v,
            spec_gen_components(root@, cv.skip(i as int), package@, b@, deps, prelude_v)
                == spec_gen_components(m0, cv, package@, b@, deps, prelude_v),
        decreases b.component_definitions@.len() - i,
    {
        proof {
            assert(cv.skip(i as int)[0] == cv[i as int]);
            assert(cv.skip(i as int).skip(1) =~= cv.skip(i + 1));
            assert(cv[i as int] == b.component_definitions@[i as int]@);
        }
        let c = &b.component_definitions[i];
        if str_is_prefix(package, c.identifier.qualified_name.as_str()) {
            let items = match component_items(c, b, dependencies) {
                Ok(items) => items,
                Err(e) => {
                    proof {
                        assert(spec_gen_components(root@, cv.skip(i as int), package@, b@, deps, prelude_v)
                            == Err::<ModuleView, GenerationErrorView>(e@));
                        assert(spec_generate(b@, package@, deps) == Err::<
                            Seq<char>,
                            GenerationErrorView,
                        >(e@));
                    }
                    return Err(e);
                },
            };
            let path = c.identifier.namespace_path();
            proof {
                assert(strs_view(path@) =~= spec_namespace(c@.identifier));
            }
            insert_items(&mut root, &path, &items, &default_prelude);
        }
        i = i + 1;
    }
    proof {
        assert(cv.skip(cv.len() as int) =~= Seq::<ComponentDefinitionView>::empty());
    }
    let ghost m1 = root@;
    let ghost tv = types_view(b.type_definitions@);
    let mut j: usize = 0;
    proof {
        assert(tv.skip(0) =~= tv);
    }
    while j < b.type_definitions.len()
        invariant
            j <= b.type_definitions@.len(),
            tv == types_view(b.type_definitions@),
            tv.len() == b.type_definitions@.len(),
            bundle_wf(b@),
            b@.type_definitions == tv,
            bundle.v1 == Some(*b),
            cv == components_view(b.component_definitions@),
            spec_gen_components(spec_root(), cv, package@, b@, deps, prelude_v) == Ok::<
                ModuleView,
                GenerationErrorView,
            >(m1),
            deps == deps_view(dependencies@),
            prelude_v == spec_prelude(deps),
            strs_view(default_prelude@) == prelude_v,
            spec_gen_types(root@, tv.skip(j as int), package@, b@, deps, prelude_v)
                == spec_gen_types(m1, tv, package@, b@, deps, prelude_v),
        decreases b.type_definitions@.len() - j,
    {
        proof {
            assert(tv.skip(j as int)[0] == tv[j as int]);
            assert(tv.skip(j as int).skip(1) =~= tv.skip(j + 1));
            assert(tv[j as int] == b.type_definitions@[j as int]@);
        }
        let t = &b.type_definitions[j];
        if str_is_prefix(package, t.identifier.qualified_name.as_str()) {
            let item = match type_item(t, b, dependencies) {
                Ok(item) => item,
                Err(e) => {
                    return Err(e);
                },
            };
            let path = t.identifier.namespace_path();
            let mut items: Vec<String> = Vec::new();
            items.push(item);
            proof {
                assert(strs_view(path@) =~= spec_namespace(t@.identifier));
                assert(strs_view(items@) =~= seq![
                    spec_type_item(t@, b@, deps)->Ok_0,
                ]);
            }
            insert_items(&mut root, &path, &items, &default_prelude);
        }
        j = j + 1;
    }
    proof {
        assert(tv.skip(tv.len() as int) =~= Seq::<TypeDefinitionView>::empty());
    }
    let ghost m2 = root@;
    let ghost ev = enums_view(b.enum_definitions@);
    let mut k: usize = 0;
    proof {
        assert(ev.skip(0) =~= ev);
    }
    while k < b.enum_definitions.len()
        invariant
            k <= b.enum_definitions@.len(),
            ev == enums_view(b.enum_definitions@),
            ev.len() == b.enum_definitions@.len(),
            bundle_wf(b@),
            b@.enum_definitions == ev,
            bundle.v1 == Some(*b),
            cv == components_view(b.component_definitions@),
            tv == types_view(b.type_definitions@),
            spec_gen_components(spec_root(), cv, package@, b@, deps, prelude_v) == Ok::<
                ModuleView,
                GenerationErrorView,
            >(m1),
            spec_gen_types(m1, tv, package@, b@, deps, prelude_v) == Ok::<
                ModuleView,
                GenerationErrorView,
            >(m2),
            deps == deps_view(dependencies@),
            prelude_v == spec_prelude(deps),
            strs_view(default_prelude@) == prelude_v,
            spec_gen_enums(root@, ev.skip(k as int), package@, prelude_v) == spec_gen_enums(
                m2,
                ev,
                package@,
                prelude_v,
            ),
        decreases b.enum_definitions@.len() - k,
    {
        proof {
            assert(ev.skip(k as int)[0] == ev[k as int]);
            assert(ev.skip(k as int).skip(1) =~= ev.skip(k + 1));
            assert(ev[k as int] == b.enum_definitions@[k as int]@);
        }
        let e = &b.enum_definitions[k];
        if str_is_prefix(package, e.identifier.qualified_name.as_str()) {
            let items = enum_items(e);
            let path = e.identifier.namespace_path();
            proof {
                assert(strs_view(path@) =~= spec_namespace(e@.identifier));
            }
            insert_items(&mut root, &path, &items, &default_prelude);
        }
        k = k + 1;
    }
    proof {
        assert(ev.skip(ev.len() as int) =~= Seq::<EnumDefinitionView>::empty());
    }
    Ok(root.render())
}

/// Generation is a pure function of the bundle, the target package, and
/// the dependency table: two runs over the same inputs yield
/// byte-identical text.
pub proof fn lemma_generate_deterministic(
    b: SchemaBundleV1View,
    package: Seq<char>,
    deps: Seq<(Seq<char>, Seq<char>)>,
    r1: Seq<char>,
    r2: Seq<char>,
)
    requires
        spec_generate(b, package, deps) == Ok::<Seq<char>, GenerationErrorView>(r1),
        spec_generate(b, package, deps) == Ok::<Seq<char>, GenerationErrorView>(r2),
    ensures
        r1 == r2,
{
}

/// The components whose qualified name the target package prefixes, in
/// bundle order.
pub open spec fn filter_components(
    comps: Seq<ComponentDefinitionView>,
    package: Seq<char>,
) -> Seq<ComponentDefinitionView>
    decreases comps.len(),
{
    if comps.len() == 0 {
        Seq::empty()
    } else if is_prefix(package, comps[0].identifier.qualified_name) {
        seq![comps[0]] + filter_components(comps.skip(1), package)
    } else {
        filter_components(comps.skip(1), package)
    }
}

/// Every filtered component carries the package prefix, and every
/// component with the prefix is kept, in order.
pub proof fn lemma_filter_components_sound(
    comps: Seq<ComponentDefinitionView>,
    package: Seq<char>,
)
    ensures
        forall|i: int|
            0 <= i < filter_components(comps, package).len() ==> is_prefix(
                package,
                (#[trigger] filter_components(comps, package)[i]).identifier.qualified_name,
            ),
        forall|i: int|
            0 <= i < comps.len() && is_prefix(
                package,
                (#[trigger] comps[i]).identifier.qualified_name,
            ) ==> filter_components(comps, package).contains(comps[i]),
    decreases comps.len(),
{
    if comps.len() > 0 {
        lemma_filter_components_sound(comps.skip(1), package);
        let f = filter_components(comps, package);
        let rest = filter_components(comps.skip(1), package);
        assert forall|i: int|
            0 <= i < comps.len() && is_prefix(
                package,
                (#[trigger] comps[i]).identifier.qualified_name,
            ) implies f.contains(comps[i]) by {
            if i == 0 {
                assert(f[0] == comps[0]);
            } else {
                assert(comps.skip(1)[i - 1] == comps[i]);
                assert(rest.contains(comps[i]));
                let w = choose|w: int| 0 <= w < rest.len() && rest[w] == comps[i];
                if is_prefix(package, comps[0].identifier.qualified_name) {
                    assert(f[w + 1] == rest[w]);
                } else {
                    assert(f[w] == rest[w]);
                }
            }
        }
        if is_prefix(package, comps[0].identifier.qualified_name) {
            assert forall|i: int|
                0 <= i < f.len() implies is_prefix(
                package,
                (#[trigger] f[i]).identifier.qualified_name,
            ) by {
                if i > 0 {
                    assert(f[i] == rest[i - 1]);
                }
            }
        }
    }
}

/// Generation emits exactly the components the filter keeps: entities of
/// sibling packages never reach the tree.
pub proof fn lemma_generate_filters(
    m: ModuleView,
    comps: Seq<ComponentDefinitionView>,
    package: Seq<char>,
    b: SchemaBundleV1View,
    deps: Seq<(Seq<char>, Seq<char>)>,
    prelude: Seq<Seq<char>>,
)
    ensures
        spec_gen_components(m, comps, package, b, deps, prelude) == spec_gen_components(
            m,
            filter_components(comps, package),
            package,
            b,
            deps,
            prelude,
        ),
    decreases comps.len(),
{
    if comps.len() > 0 {
        let f = filter_components(comps, package);
        if is_prefix(package, comps[0].identifier.qualified_name) {
            assert(f[0] == comps[0]);
            assert(f.skip(1) =~= filter_components(comps.skip(1), package));
            match spec_component_items(comps[0], b, deps) {
                Err(e) => {},
                Ok(items) => {
                    lemma_generate_filters(
                        spec_insert_items(m, spec_namespace(comps[0].identifier), items, prelude),
                        comps.skip(1),
                        package,
                        b,
                        deps,
                        prelude,
                    );
                },
            }
        } else {
            lemma_generate_filters(m, comps.skip(1), package, b, deps, prelude);
        }
    }
}

} // verus!
