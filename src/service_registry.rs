use crate::clock::{now, Timestamp};
use crate::task::{ResourceModel, ResourceType, ServiceResource};
use crate::text::str_eq;
use crate::tracker::{copy_strings, strings_view};
use vstd::prelude::*;

verus! {

/// The mathematical value of a registered service.
pub struct ServiceModel {
    pub service_name: Seq<char>,
    pub group: Seq<char>,
    pub languages: Seq<Seq<char>>,
    pub provides: Seq<ResourceModel>,
    pub endpoint: Seq<char>,
    pub registered_at: Timestamp,
}

/// A service and the resources it offers, one per name.
#[derive(Debug)]
pub struct ServiceInfo {
    pub service_name: String,
    pub group: String,
    pub languages: Vec<String>,
    pub provides: Vec<ServiceResource>,
    pub endpoint: String,
    pub registered_at: Timestamp,
}

pub open spec fn resources_view(v: Seq<ServiceResource>) -> Seq<ResourceModel> {
    v.map_values(|r: ServiceResource| r@)
}

impl View for ServiceInfo {
    type V = ServiceModel;

    open spec fn view(&self) -> ServiceModel {
        ServiceModel {
            service_name: self.service_name@,
            group: self.group@,
            languages: strings_view(self.languages@),
            provides: resources_view(self.provides@),
            endpoint: self.endpoint@,
            registered_at: self.registered_at,
        }
    }
}

fn copy_resources(v: &Vec<ServiceResource>) -> (r: Vec<ServiceResource>)
    ensures
        resources_view(r@) == resources_view(v@),
{
    let mut r: Vec<ServiceResource> = Vec::new();
    let mut i: usize = 0;
    while i < v.len()
        invariant
            i <= v@.len(),
            r@.len() == i,
            forall|k: int| 0 <= k < i ==> r@[k]@ == v@[k]@,
        decreases v@.len() - i,
    {
        r.push(v[i].clone());
        i = i + 1;
    }
    assert(resources_view(r@) =~= resources_view(v@));
    r
}

impl Clone for ServiceInfo {
    fn clone(&self) -> (r: Self)
        ensures
            r@ == self@,
    {
        ServiceInfo {
            service_name: self.service_name.clone(),
            group: self.group.clone(),
            languages: copy_strings(&self.languages),
            provides: copy_resources(&self.provides),
            endpoint: self.endpoint.clone(),
            registered_at: self.registered_at,
        }
    }
}

/// Replaces the resources named like `r` by `r`, or appends `r`.
pub open spec fn upsert_resource(s: Seq<ResourceModel>, r: ResourceModel) -> Seq<ResourceModel> {
    if exists|i: int| 0 <= i < s.len() && s[i].name == r.name {
        s.map_values(|x: ResourceModel| if x.name == r.name { r } else { x })
    } else {
        s.push(r)
    }
}

/// One resource per name, the last one given for each name, in the order in
/// which the names first appear.
pub open spec fn by_name(s: Seq<ResourceModel>) -> Seq<ResourceModel>
    decreases s.len(),
{
    if s.len() == 0 {
        s
    } else {
        upsert_resource(by_name(s.drop_last()), s.last())
    }
}

/// Replaces the services named like `sv` by `sv`, or appends `sv`.
pub open spec fn upsert_service(s: Seq<ServiceModel>, sv: ServiceModel) -> Seq<ServiceModel> {
    if exists|i: int| 0 <= i < s.len() && s[i].service_name == sv.service_name {
        s.map_values(|x: ServiceModel| if x.service_name == sv.service_name { sv } else { x })
    } else {
        s.push(sv)
    }
}

/// The service offers a resource named `name`.
pub open spec fn offers(s: ServiceModel, name: Seq<char>) -> bool {
    exists|k: int| 0 <= k < s.provides.len() && s.provides[k].name == name
}

/// The service offers a resource of kind `rt`.
pub open spec fn offers_kind(s: ServiceModel, rt: ResourceType) -> bool {
    exists|k: int| 0 <= k < s.provides.len() && s.provides[k].resource_type == rt
}

pub open spec fn services_view(v: Seq<ServiceInfo>) -> Seq<ServiceModel> {
    v.map_values(|s: ServiceInfo| s@)
}

/// Adds `r` to `v`, replacing a resource of the same name.
fn put_resource(v: &mut Vec<ServiceResource>, r: ServiceResource)
    ensures
        resources_view(final(v)@) == upsert_resource(resources_view(old(v)@), r@),
{
    let ghost rv = r@;
    let ghost old_s = resources_view(old(v)@);
    let mut out: Vec<ServiceResource> = Vec::new();
    let mut found = false;
    let mut i: usize = 0;
    while i < v.len()
        invariant
            i <= v@.len(),
            rv == r@,
            old_s == resources_view(v@),
            out@.len() == i,
            found == exists|k: int| 0 <= k < i && old_s[k].name == rv.name,
            forall|k: int|
                0 <= k < i ==> out@[k]@ == (if old_s[k].name == rv.name {
                    rv
                } else {
                    old_s[k]
                }),
        decreases v@.len() - i,
    {
        assert(old_s[i as int] == v@[i as int]@);
        if str_eq(v[i].name.as_str(), r.name.as_str()) {
            out.push(r.clone());
            found = true;
        } else {
            out.push(v[i].clone());
        }
        i = i + 1;
    }
    if !found {
        out = copy_resources(v);
        out.push(r);
        assert(resources_view(out@) =~= old_s.push(rv));
    } else {
        assert(resources_view(out@) =~= old_s.map_values(
            |x: ResourceModel| if x.name == rv.name { rv } else { x },
        ));
    }
    *v = out;
}

/// The directory of services, one per name, in order of first registration.
pub struct ServiceRegistry {
    services: Vec<ServiceInfo>,
}

impl ServiceRegistry {
    pub closed spec fn model(&self) -> Seq<ServiceModel> {
        services_view(self.services@)
    }

    /// Service names are unique.
    pub open spec fn inv(&self) -> bool {
        forall|i: int, j: int|
            0 <= i < j < self.model().len() ==> self.model()[i].service_name
                != self.model()[j].service_name
    }

    /// An empty registry.
    pub fn new() -> (r: ServiceRegistry)
        ensures
            r.inv(),
            r.model() == Seq::<ServiceModel>::empty(),
    {
        let r = ServiceRegistry { services: Vec::new() };
        assert(r.model() =~= Seq::<ServiceModel>::empty());
        r
    }

    fn find(&self, service_name: &str) -> (r: Option<usize>)
        requires
            self.inv(),
        ensures
            r matches Some(i) ==> i < self.model().len() && self.model()[i as int].service_name
                == service_name@ && forall|k: int|
                0 <= k < self.model().len() && k != i ==> self.model()[k].service_name
                    != service_name@,
            r is None ==> forall|k: int|
                0 <= k < self.model().len() ==> self.model()[k].service_name != service_name@,
    {
        let mut i: usize = 0;
        while i < self.services.len()
            invariant
                self.inv(),
                i <= self.services@.len(),
                forall|k: int| 0 <= k < i ==> self.model()[k].service_name != service_name@,
            decreases self.services@.len() - i,
        {
            assert(self.model()[i as int] == self.services@[i as int]@);
            if str_eq(self.services[i].service_name.as_str(), service_name) {
                assert forall|k: int|
                    0 <= k < self.model().len() && k != i implies self.model()[k].service_name
                    != service_name@ by {
                    if k > i {
                        assert(self.model()[i as int].service_name
                            != self.model()[k].service_name);
                    }
                }
                return Some(i);
            }
            i = i + 1;
        }
        None
    }

    /// Registers (or replaces) service `service_name` with its resources, one
    /// per name (the last one given wins), stamped with `t`.
    pub fn register_at(
        &mut self,
        service_name: String,
        group: String,
        languages: Vec<String>,
        provides: Vec<ServiceResource>,
        endpoint: String,
        t: Timestamp,
    )
        requires
            old(self).inv(),
        ensures
            final(self).inv(),
            final(self).model() == upsert_service(
                old(self).model(),
                service_model(
                    service_name@,
                    group@,
                    strings_view(languages@),
                    by_name(resources_view(provides@)),
                    endpoint@,
                    t,
                ),
            ),
    {
        let ghost pv = resources_view(provides@);
        let mut unique: Vec<ServiceResource> = Vec::new();
        let mut i: usize = 0;
        while i < provides.len()
            invariant
                i <= provides@.len(),
                pv == resources_view(provides@),
                resources_view(unique@) == by_name(pv.take(i as int)),
            decreases provides@.len() - i,
        {
            put_resource(&mut unique, provides[i].clone());
            proof {
                assert(pv.take(i + 1).drop_last() =~= pv.take(i as int));
                assert(pv.take(i + 1).last() == pv[i as int]);
            }
            i = i + 1;
        }
        assert(pv.take(i as int) =~= pv);
        let pos = self.find(service_name.as_str());
        let info = ServiceInfo {
            service_name,
            group,
            languages,
            provides: unique,
            endpoint,
            registered_at: t,
        };
        let ghost sv = info@;
        let ghost s = old(self).model();
        match pos {
            Some(i) => {
                self.services.set(i, info);
                assert(self.model() =~= s.map_values(
                    |x: ServiceModel| if x.service_name == sv.service_name { sv } else { x },
                ));
            },
            None => {
                self.services.push(info);
                assert(self.model() =~= s.push(sv));
            },
        }
    }

    /// Registers (or replaces) a service now; see `register_at`.
    pub fn register(
        &mut self,
        service_name: String,
        group: String,
        languages: Vec<String>,
        provides: Vec<ServiceResource>,
        endpoint: String,
    )
        requires
            old(self).inv(),
        ensures
            final(self).inv(),
            exists|t: Timestamp|
                final(self).model() == upsert_service(
                    old(self).model(),
                    #[trigger] service_model(
                        service_name@,
                        group@,
                        strings_view(languages@),
                        by_name(resources_view(provides@)),
                        endpoint@,
                        t,
                    ),
                ),
    {
        let t = now();
        self.register_at(service_name, group, languages, provides, endpoint, t);
    }

    /// Removes service `service_name`; tells whether it was registered.
    pub fn unregister(&mut self, service_name: &str) -> (r: bool)
        requires
            old(self).inv(),
        ensures
            final(self).inv(),
            r == exists|i: int|
                0 <= i < old(self).model().len() && old(self).model()[i].service_name
                    == service_name@,
            final(self).model() == old(self).model().filter(
                |s: ServiceModel| s.service_name != service_name@,
            ),
    {
        let ghost keep = |s: ServiceModel| s.service_name != service_name@;
        match self.find(service_name) {
            Some(i) => {
                let ghost m = self.model();
                self.services.remove(i);
                proof {
                    assert(self.model() =~= m.remove(i as int));
                    crate::tracker::lemma_filter_remove_one(m, i as int, keep);
                    assert forall|a: int, b: int|
                        0 <= a < b < self.model().len() implies self.model()[a].service_name
                        != self.model()[b].service_name by {
                        let a2 = if a < i { a } else { a + 1 };
                        let b2 = if b < i { b } else { b + 1 };
                        assert(self.model()[a] == m[a2]);
                        assert(self.model()[b] == m[b2]);
                    }
                }
                true
            },
            None => {
                proof {
                    crate::tracker::lemma_filter_keeps_all(old(self).model(), keep);
                }
                false
            },
        }
    }

    /// A copy of service `service_name`.
    pub fn get(&self, service_name: &str) -> (r: Option<ServiceInfo>)
        requires
            self.inv(),
        ensures
            r matches Some(s) ==> exists|i: int|
                0 <= i < self.model().len() && self.model()[i] == s@ && s@.service_name
                    == service_name@,
            r is None ==> forall|i: int|
                0 <= i < self.model().len() ==> self.model()[i].service_name != service_name@,
    {
        match self.find(service_name) {
            Some(i) => {
                let s = self.services[i].clone();
                assert(self.model()[i as int] == s@);
                Some(s)
            },
            None => None,
        }
    }

    /// Service `service_name` is registered.
    pub fn is_registered(&self, service_name: &str) -> (r: bool)
        requires
            self.inv(),
        ensures
            r == exists|i: int|
                0 <= i < self.model().len() && self.model()[i].service_name == service_name@,
    {
        match self.find(service_name) {
            Some(_) => true,
            None => false,
        }
    }

    /// Copies of all services, in order.
    pub fn list(&self) -> (r: Vec<ServiceInfo>)
        ensures
            services_view(r@) == self.model(),
    {
        let mut r: Vec<ServiceInfo> = Vec::new();
        let mut i: usize = 0;
        while i < self.services.len()
            invariant
                i <= self.services@.len(),
                r@.len() == i,
                forall|k: int| 0 <= k < i ==> r@[k]@ == self.model()[k],
            decreases self.services@.len() - i,
        {
            assert(self.model()[i as int] == self.services@[i as int]@);
            r.push(self.services[i].clone());
            i = i + 1;
        }
        assert(services_view(r@) =~= self.model());
        r
    }

    /// The position of the resource named `name` among `s`'s resources.
    fn find_in(s: &ServiceInfo, name: &str) -> (r: Option<usize>)
        ensures
            r matches Some(k) ==> k < s@.provides.len() && s@.provides[k as int].name == name@,
            r is None ==> !offers(s@, name@),
    {
        let mut k: usize = 0;
        while k < s.provides.len()
            invariant
                k <= s.provides@.len(),
                forall|j: int| 0 <= j < k ==> s@.provides[j].name != name@,
            decreases s.provides@.len() - k,
        {
            assert(s@.provides[k as int] == s.provides@[k as int]@);
            if str_eq(s.provides[k].name.as_str(), name) {
                return Some(k);
            }
            k = k + 1;
        }
        None
    }

    /// The first service, in order, that offers a resource named
    /// `resource_name`, with that resource.
    pub fn find_resource(&self, resource_name: &str) -> (r: Option<(String, ServiceResource)>)
        ensures
            r is None ==> forall|i: int|
                0 <= i < self.model().len() ==> !offers(self.model()[i], resource_name@),
            r matches Some((sn, res)) ==> exists|i: int|
                0 <= i < self.model().len() && self.model()[i].service_name == sn@ && offers(
                    self.model()[i],
                    resource_name@,
                ) && (forall|j: int| 0 <= j < i ==> !offers(self.model()[j], resource_name@))
                    && res@.name == resource_name@ && exists|k: int|
                    0 <= k < self.model()[i].provides.len() && self.model()[i].provides[k]
                        == res@,
    {
        let mut i: usize = 0;
        while i < self.services.len()
            invariant
                i <= self.services@.len(),
                forall|j: int| 0 <= j < i ==> !offers(self.model()[j], resource_name@),
            decreases self.services@.len() - i,
        {
            assert(self.model()[i as int] == self.services@[i as int]@);
            match Self::find_in(&self.services[i], resource_name) {
                Some(k) => {
                    let res = self.services[i].provides[k].clone();
                    assert(self.model()[i as int].provides[k as int] == res@);
                    return Some((self.services[i].service_name.clone(), res));
                },
                None => {},
            }
            i = i + 1;
        }
        None
    }

    /// The resource named `resource_name` of service `service_name`.
    pub fn find_resource_in_service(&self, service_name: &str, resource_name: &str) -> (r: Option<
        ServiceResource,
    >)
        requires
            self.inv(),
        ensures
            r is None ==> forall|i: int|
                0 <= i < self.model().len() && self.model()[i].service_name == service_name@
                    ==> !offers(self.model()[i], resource_name@),
            r matches Some(res) ==> exists|i: int, k: int|
                0 <= i < self.model().len() && self.model()[i].service_name == service_name@
                    && 0 <= k < self.model()[i].provides.len() && self.model()[i].provides[k]
                    == res@ && res@.name == resource_name@,
    {
        match self.find(service_name) {
            Some(i) => {
                assert(self.model()[i as int] == self.services@[i as int]@);
                match Self::find_in(&self.services[i], resource_name) {
                    Some(k) => {
                        let res = self.services[i].provides[k].clone();
                        assert(self.model()[i as int].provides[k as int] == res@);
                        Some(res)
                    },
                    None => None,
                }
            },
            None => None,
        }
    }

    /// Copies of the services, in order, that offer a resource of kind
    /// `resource_type`.
    pub fn get_services_by_resource_type(&self, resource_type: ResourceType) -> (r: Vec<
        ServiceInfo,
    >)
        ensures
            services_view(r@) == self.model().filter(
                |s: ServiceModel| offers_kind(s, resource_type),
            ),
    {
        let ghost keep = |s: ServiceModel| offers_kind(s, resource_type);
        let mut r: Vec<ServiceInfo> = Vec::new();
        let mut i: usize = 0;
        while i < self.services.len()
            invariant
                i <= self.services@.len(),
                keep == (|s: ServiceModel| offers_kind(s, resource_type)),
                services_view(r@) == self.model().subrange(0, i as int).filter(keep),
            decreases self.services@.len() - i,
        {
            let ghost sm = self.model()[i as int];
            assert(sm == self.services@[i as int]@);
            proof {
                assert(self.model().subrange(0, i + 1) =~= self.model().subrange(
                    0,
                    i as int,
                ).push(sm));
                self.model().subrange(0, i as int).lemma_filter_push(sm, keep);
            }
            let mut has = false;
            let mut k: usize = 0;
            while k < self.services[i].provides.len()
                invariant
                    k <= sm.provides.len(),
                    sm == self.services@[i as int]@,
                    i < self.services@.len(),
                    has == exists|j: int| 0 <= j < k && sm.provides[j].resource_type == resource_type,
                decreases sm.provides.len() - k,
            {
                assert(sm.provides[k as int] == self.services@[i as int].provides@[k as int]@);
                if self.services[i].provides[k].resource_type == resource_type {
                    has = true;
                }
                k = k + 1;
            }
            if has {
                r.push(self.services[i].clone());
            }
            assert(services_view(r@) =~= self.model().subrange(0, i + 1).filter(keep));
            i = i + 1;
        }
        assert(self.model().subrange(0, i as int) =~= self.model());
        r
    }

    /// The number of registered services.
    pub fn len(&self) -> (r: usize)
        ensures
            r == self.model().len(),
    {
        self.services.len()
    }

    /// No service is registered.
    pub fn is_empty(&self) -> (r: bool)
        ensures
            r == (self.model().len() == 0),
    {
        self.len() == 0
    }
}

/// A service record.
pub open spec fn service_model(
    service_name: Seq<char>,
    group: Seq<char>,
    languages: Seq<Seq<char>>,
    provides: Seq<ResourceModel>,
    endpoint: Seq<char>,
    registered_at: Timestamp,
) -> ServiceModel {
    ServiceModel { service_name, group, languages, provides, endpoint, registered_at }
}

} // verus!
