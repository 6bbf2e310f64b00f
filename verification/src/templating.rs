//! The companion template resolver: turns an application-companion
//! template into a concrete service configuration for one target
//! application, by rendering its template strings against the
//! application name and the working set resolved so far.

use vstd::prelude::*;

use crate::config::AppCompanionConfig;
use crate::config::AppCompanionConfigView;
use crate::resolution::contains_service_name;
use crate::resolution::overridden;
use crate::resolution::unique_names;
use crate::service_model::ContainerType;
use crate::service_model::ServiceConfig;
use crate::service_model::ServiceConfigView;

verus! {

/// Declares the templating engine's error type so that it can stand
/// in signatures and be carried as an error payload; the library never
/// looks inside a value of it.
#[verifier::external_type_specification]
#[verifier::external_body]
pub struct ExRenderError(handlebars::RenderError);

/// The text that rendering a template string against the given
/// key-value data yields, when rendering succeeds.
pub uninterp spec fn rendered_of(template: Seq<char>, data: Seq<(Seq<char>, Seq<char>)>) -> Seq<char>;

/// Whether rendering a template string against the given key-value
/// data succeeds; like the rendered text, this depends on the template
/// and the data alone.
pub uninterp spec fn renders(template: Seq<char>, data: Seq<(Seq<char>, Seq<char>)>) -> bool;

/// The label under which a role marker is visible to template
/// expressions.
pub open spec fn container_type_label(t: ContainerType) -> Seq<char> {
    match t {
        ContainerType::Primary => "primary"@,
        ContainerType::Replica => "replica"@,
        ContainerType::ApplicationCompanion => "application-companion"@,
        ContainerType::ServiceCompanion => "service-companion"@,
    }
}

/// The key under which the target application's name is bound for
/// template expressions.
pub open spec fn application_name_key() -> Seq<char> {
    "application_name"@
}

/// One key-value entry per context service, keyed by service name and
/// valued with its role label, in working-set order. A service whose
/// name would shadow the application-name binding is not exposed.
pub open spec fn context_entries(ctx: Seq<ServiceConfigView>) -> Seq<(Seq<char>, Seq<char>)>
    decreases ctx.len(),
{
    if ctx.len() == 0 {
        Seq::empty()
    } else {
        let rest = context_entries(ctx.drop_last());
        if ctx.last().service_name == application_name_key() {
            rest
        } else {
            rest.push((ctx.last().service_name, container_type_label(ctx.last().container_type)))
        }
    }
}

/// The key-value data a template is rendered against: the target
/// application's name, then one entry per context service.
pub open spec fn context_data(app: Seq<char>, ctx: Seq<ServiceConfigView>) -> Seq<(Seq<char>, Seq<char>)> {
    seq![(application_name_key(), app)] + context_entries(ctx)
}

/// The concrete configuration that resolving one template for one
/// application against one working set yields: both template fields
/// rendered, marked as an application companion.
pub open spec fn companion_view(t: AppCompanionConfigView, app: Seq<char>, ctx: Seq<ServiceConfigView>) -> ServiceConfigView {
    ServiceConfigView {
        service_name: rendered_of(t.service_name, context_data(app, ctx)),
        image: rendered_of(t.image, context_data(app, ctx)),
        container_type: ContainerType::ApplicationCompanion,
    }
}

/// Whether one template resolves against one working set: both of its
/// template fields render.
pub open spec fn template_renders(t: AppCompanionConfigView, app: Seq<char>, ctx: Seq<ServiceConfigView>) -> bool {
    renders(t.service_name, context_data(app, ctx)) && renders(t.image, context_data(app, ctx))
}

/// The working set after the companion step: each template resolved in
/// load order, every resolved companion appended immediately so that
/// later templates see the companions added by earlier ones. A
/// companion whose resolved name is already taken is not appended: an
/// earlier entry always wins a name collision.
pub open spec fn with_companions(base: Seq<ServiceConfigView>, app: Seq<char>, templates: Seq<AppCompanionConfigView>) -> Seq<ServiceConfigView>
    decreases templates.len(),
{
    if templates.len() == 0 {
        base
    } else {
        let prev = with_companions(base, app, templates.drop_last());
        let companion = companion_view(templates.last(), app, prev);
        if overridden(prev, companion.service_name) {
            prev
        } else {
            prev.push(companion)
        }
    }
}

/// Whether every template resolves, each against the working set
/// extended by the companions resolved before it.
pub open spec fn companions_resolve(base: Seq<ServiceConfigView>, app: Seq<char>, templates: Seq<AppCompanionConfigView>) -> bool
    decreases templates.len(),
{
    if templates.len() == 0 {
        true
    } else {
        companions_resolve(base, app, templates.drop_last())
            && template_renders(templates.last(), app, with_companions(base, app, templates.drop_last()))
    }
}

/// When the whole companion step resolves, each single template
/// renders against its incremental context.
pub proof fn lemma_companions_resolve_at(base: Seq<ServiceConfigView>, app: Seq<char>, templates: Seq<AppCompanionConfigView>, k: int)
    requires
        companions_resolve(base, app, templates),
        0 <= k < templates.len(),
    ensures
        template_renders(templates[k], app, with_companions(base, app, templates.take(k))),
    decreases templates.len(),
{
    if k == templates.len() - 1 {
        assert(templates.drop_last() =~= templates.take(k));
    } else {
        lemma_companions_resolve_at(base, app, templates.drop_last(), k);
        assert(templates.drop_last()[k] == templates[k]);
        assert(templates.drop_last().take(k) =~= templates.take(k));
    }
}

/// The companion step keeps the base set unchanged and in place,
/// resolves templates in load order — each against the working set as
/// it stands, appended only when its resolved name is fresh — marks
/// every appended entry as an application companion, and preserves
/// name uniqueness.
pub proof fn lemma_with_companions_shape(base: Seq<ServiceConfigView>, app: Seq<char>, templates: Seq<AppCompanionConfigView>)
    ensures
        base.len() <= with_companions(base, app, templates).len(),
        with_companions(base, app, templates).len() <= base.len() + templates.len(),
        forall|i: int| 0 <= i < base.len() ==> #[trigger] with_companions(base, app, templates)[i] == base[i],
        forall|k: int| 0 <= k < templates.len()
            ==> with_companions(base, app, templates.take(k + 1)) == ({
                let prev = with_companions(base, app, templates.take(k));
                let companion = companion_view(#[trigger] templates[k], app, prev);
                if overridden(prev, companion.service_name) {
                    prev
                } else {
                    prev.push(companion)
                }
            }),
        forall|i: int| base.len() <= i < with_companions(base, app, templates).len()
            ==> #[trigger] with_companions(base, app, templates)[i].container_type == ContainerType::ApplicationCompanion,
        forall|i: int| base.len() <= i < with_companions(base, app, templates).len()
            ==> !overridden(
                with_companions(base, app, templates).take(i),
                #[trigger] with_companions(base, app, templates)[i].service_name,
            ),
        unique_names(base) ==> unique_names(with_companions(base, app, templates)),
    decreases templates.len(),
{
    let full = with_companions(base, app, templates);
    assert forall|k: int| 0 <= k < templates.len()
        implies with_companions(base, app, templates.take(k + 1)) == ({
            let prev = with_companions(base, app, templates.take(k));
            let companion = companion_view(#[trigger] templates[k], app, prev);
            if overridden(prev, companion.service_name) {
                prev
            } else {
                prev.push(companion)
            }
        }) by {
        assert(templates.take(k + 1).drop_last() =~= templates.take(k));
        assert(templates.take(k + 1).last() == templates[k]);
    }
    if templates.len() > 0 {
        lemma_with_companions_shape(base, app, templates.drop_last());
        let prev = with_companions(base, app, templates.drop_last());
        assert(forall|k: int| 0 <= k < templates.len() - 1 ==> templates[k] == templates.drop_last()[k]);
        assert(forall|i: int| 0 <= i < prev.len() ==> full[i] == prev[i]);
        assert forall|i: int| base.len() <= i < full.len()
            implies !overridden(full.take(i), #[trigger] full[i].service_name) by {
            if i < prev.len() {
                assert(full.take(i) =~= prev.take(i));
            } else {
                assert(full.take(i) =~= prev);
            }
        }
        if unique_names(base) {
            assert forall|i: int, j: int| 0 <= i < j < full.len()
                implies full[i].service_name != full[j].service_name by {
                if j >= base.len() {
                    assert(!overridden(full.take(j), full[j].service_name));
                    assert(full.take(j)[i] == full[i]);
                }
            }
        }
    }
}

/// Relies on `handlebars::Handlebars::render_template`: renders a
/// template string against the given data without registering it; the
/// outcome and the output depend on the template string and the data
/// alone.
#[verifier::external_body]
fn render_companion_template(template: &str, data: &Vec<(String, String)>) -> (r: Result<String, handlebars::RenderError>)
    ensures
        r matches Ok(s) ==> s@ == rendered_of(template@, data.deep_view()),
        r is Ok <==> renders(template@, data.deep_view()),
{
    let context: std::collections::BTreeMap<&str, &str> =
        data.iter().map(|(k, v)| (k.as_str(), v.as_str())).collect();
    handlebars::Handlebars::new().render_template(template, &context)
}

/// Builds the key-value rendering data for one target application and
/// one working set.
fn build_context(app_name: &String, configs: &Vec<ServiceConfig>) -> (r: Vec<(String, String)>)
    ensures
        r.deep_view() == context_data(app_name@, configs.deep_view()),
{
    let app_key = "application_name".to_owned();
    let mut data: Vec<(String, String)> = Vec::new();
    data.push((app_key.clone(), app_name.clone()));
    let mut i: usize = 0;
    while i < configs.len()
        invariant
            i <= configs.len(),
            data@.len() == 1 + context_entries(configs.deep_view().take(i as int)).len(),
            data.deep_view() == context_data(app_name@, configs.deep_view().take(i as int)),
            app_key@ == application_name_key(),
        decreases configs.len() - i,
    {
        let ghost prefix = configs.deep_view().take(i as int);
        let ghost next_prefix = configs.deep_view().take(i + 1 as int);
        assert(next_prefix.drop_last() =~= prefix);
        assert(next_prefix.last() == configs.deep_view()[i as int]);
        let c = &configs[i];
        if !(*c.get_service_name() == app_key) {
            let label = match c.get_container_type() {
                ContainerType::Primary => "primary".to_owned(),
                ContainerType::Replica => "replica".to_owned(),
                ContainerType::ApplicationCompanion => "application-companion".to_owned(),
                ContainerType::ServiceCompanion => "service-companion".to_owned(),
            };
            let ghost pair_view = (
                configs.deep_view()[i as int].service_name,
                container_type_label(configs.deep_view()[i as int].container_type),
            );
            data.push((c.get_service_name().clone(), label));
            assert(context_entries(next_prefix) == context_entries(prefix).push(pair_view));
            proof {
                Seq::push_distributes_over_add(
                    seq![(application_name_key(), app_name@)],
                    context_entries(prefix),
                    pair_view,
                );
            }
            assert(data.deep_view() =~= context_data(app_name@, prefix).push(pair_view));
        } else {
            assert(context_entries(next_prefix) == context_entries(prefix));
        }
        i = i + 1;
    }
    assert(configs.deep_view().take(configs.len() as int) =~= configs.deep_view());
    data
}

/// Resolves one application-companion template for the given target
/// application against the given working set: it succeeds exactly when
/// the templating engine renders both template fields against that
/// context. The working set is never changed.
pub fn apply_templating_for_application_companion(
    template: &AppCompanionConfig,
    app_name: &String,
    configs: &Vec<ServiceConfig>,
) -> (r: Result<ServiceConfig, handlebars::RenderError>)
    ensures
        r matches Ok(c) ==> c@ == companion_view(template@, app_name@, configs.deep_view()),
        r is Ok <==> template_renders(template@, app_name@, configs.deep_view()),
{
    let context = build_context(app_name, configs);
    let service_name = match render_companion_template(template.get_service_name().as_str(), &context) {
        Ok(s) => s,
        Err(e) => {
            return Err(e);
        },
    };
    let image = match render_companion_template(template.get_image().as_str(), &context) {
        Ok(s) => s,
        Err(e) => {
            return Err(e);
        },
    };
    Ok(ServiceConfig::new(service_name, image, ContainerType::ApplicationCompanion))
}

/// The companion step of `create_or_update`: resolves every loaded
/// template in load order, appending each resolved companion to the
/// working set immediately unless an entry already carries its name —
/// the earlier entry wins. It succeeds exactly when every template
/// resolves against its incremental context; on the first template
/// that fails, the whole step is abandoned and the failure returned.
pub fn apply_companions(
    app_name: &String,
    configs: Vec<ServiceConfig>,
    templates: &Vec<AppCompanionConfig>,
) -> (r: Result<Vec<ServiceConfig>, handlebars::RenderError>)
    ensures
        r matches Ok(v) ==> v.deep_view() == with_companions(configs.deep_view(), app_name@, templates.deep_view()),
        r is Ok <==> companions_resolve(configs.deep_view(), app_name@, templates.deep_view()),
{
    let mut working = configs;
    let mut i: usize = 0;
    while i < templates.len()
        invariant
            i <= templates.len(),
            working.deep_view() == with_companions(configs.deep_view(), app_name@, templates.deep_view().take(i as int)),
            companions_resolve(configs.deep_view(), app_name@, templates.deep_view().take(i as int)),
        decreases templates.len() - i,
    {
        let ghost prev = working.deep_view();
        let ghost next_prefix = templates.deep_view().take(i + 1 as int);
        assert(next_prefix.drop_last() =~= templates.deep_view().take(i as int));
        assert(next_prefix.last() == templates.deep_view()[i as int]);
        match apply_templating_for_application_companion(&templates[i], app_name, &working) {
            Ok(companion) => {
                assert(companion@ == companion_view(next_prefix.last(), app_name@, prev));
                assert(companions_resolve(configs.deep_view(), app_name@, next_prefix));
                if !contains_service_name(&working, companion.get_service_name()) {
                    working.push(companion);
                    assert(working.deep_view() =~= prev.push(companion@));
                } else {
                    assert(with_companions(configs.deep_view(), app_name@, next_prefix) == prev);
                }
            },
            Err(e) => {
                proof {
                    if companions_resolve(configs.deep_view(), app_name@, templates.deep_view()) {
                        lemma_companions_resolve_at(configs.deep_view(), app_name@, templates.deep_view(), i as int);
                    }
                }
                return Err(e);
            },
        }
        i = i + 1;
    }
    assert(templates.deep_view().take(templates.len() as int) =~= templates.deep_view());
    Ok(working)
}

} // verus!
