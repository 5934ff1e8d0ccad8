//! Test-implementation configuration: the framework block, the per-test
//! block, and the project that groups them. The endpoint mapping of a test
//! is an ordered list of `(test type, path)` pairs: iteration order is
//! insertion order, and that order defines run order.

use vstd::prelude::*;

verus! {

pub trait Named {
    fn get_name(&self) -> String;
}

/// One decoded configuration file: the framework block and its main test.
#[derive(Clone, Debug)]
pub struct Config {
    pub framework: Framework,
    pub main: Test,
}

#[derive(Clone, Debug)]
pub struct Framework {
    pub name: String,
    pub authors: Option<Vec<String>>,
    pub github: Option<String>,
}

impl Named for Framework {
    fn get_name(&self) -> String {
        self.name.clone()
    }
}

#[derive(Clone, Debug)]
pub struct Test {
    pub name: Option<String>,
    pub urls: Vec<(String, String)>,
    pub approach: String,
    pub classification: String,
    pub orm: Option<String>,
    pub platform: String,
    pub webserver: String,
    pub os: String,
    pub database_os: Option<String>,
    pub database: Option<String>,
    pub versus: String,
    pub tags: Option<Vec<String>>,
    pub dockerfile: Option<String>,
}

impl Named for Test {
    fn get_name(&self) -> String {
        match &self.name {
            Some(n) => n.clone(),
            None => String::new(),
        }
    }
}

/// The pairs of `urls` that keep `key`, in order.
pub open spec fn keep_key(
    urls: Seq<(Seq<char>, Seq<char>)>,
    key: Seq<char>,
) -> Seq<(Seq<char>, Seq<char>)>
    decreases urls.len(),
{
    if urls.len() == 0 {
        Seq::empty()
    } else {
        keep_key(urls.drop_last(), key) + if urls.last().0 == key {
            seq![urls.last()]
        } else {
            Seq::empty()
        }
    }
}

impl Test {
    /// The image tag this test is built under.
    pub fn get_tag(&self) -> (r: String)
        ensures
            match self.name {
                Some(n) => r@ == "tfb.test."@ + n@,
                None => r@ == "tfb.test."@,
            },
    {
        let mut s = String::from_str("tfb.test.");
        match &self.name {
            Some(n) => {
                s.append(n.as_str());
            },
            None => {
            },
        }
        s
    }

    /// Narrows the endpoint mapping to one test type, keeping order; asked
    /// for nothing, it keeps everything.
    pub fn specify_test_type(&mut self, test_type: Option<&str>)
        ensures
            match test_type {
                Some(t) => final(self).urls.deep_view() == keep_key(
                    old(self).urls.deep_view(),
                    t@,
                ),
                None => final(self).urls == old(self).urls,
            },
            final(self).name == old(self).name,
            final(self).approach == old(self).approach,
            final(self).classification == old(self).classification,
            final(self).orm == old(self).orm,
            final(self).platform == old(self).platform,
            final(self).webserver == old(self).webserver,
            final(self).os == old(self).os,
            final(self).database_os == old(self).database_os,
            final(self).database == old(self).database,
            final(self).versus == old(self).versus,
            final(self).tags == old(self).tags,
            final(self).dockerfile == old(self).dockerfile,
    {
        match test_type {
            Some(t) => {
                let ghost uv = self.urls.deep_view();
                let mut kept: Vec<(String, String)> = Vec::new();
                let mut i: usize = 0;
                proof {
                    assert(uv.take(0) =~= Seq::<(Seq<char>, Seq<char>)>::empty());
                }
                while i < self.urls.len()
                    invariant
                        uv == self.urls.deep_view(),
                        self.urls@.len() == uv.len(),
                        0 <= i <= self.urls.len(),
                        kept.deep_view() == keep_key(uv.take(i as int), t@),
                    decreases self.urls.len() - i,
                {
                    proof {
                        assert(uv[i as int] == (
                            self.urls@[i as int].0@,
                            self.urls@[i as int].1@,
                        ));
                        assert(uv.take(i as int + 1).drop_last() =~= uv.take(i as int));
                        assert(uv.take(i as int + 1).last() == uv[i as int]);
                    }
                    let ghost old_kept = kept.deep_view();
                    if crate::text::str_eq(self.urls[i].0.as_str(), t) {
                        kept.push((self.urls[i].0.clone(), self.urls[i].1.clone()));
                        proof {
                            assert(kept.deep_view() =~= old_kept + seq![uv[i as int]]);
                        }
                    } else {
                        proof {
                            assert(old_kept + Seq::<(Seq<char>, Seq<char>)>::empty()
                                =~= old_kept);
                        }
                    }
                    i = i + 1;
                }
                proof {
                    assert(uv.take(uv.len() as int) =~= uv);
                }
                self.urls = kept;
            },
            None => {
            },
        }
    }

    /// The run plan of this test: its test types with their endpoints,
    /// exactly as the endpoint mapping was given — iteration order equals
    /// insertion order, and defines run order.
    pub fn test_type_plan(&self) -> (r: Vec<(String, String)>)
        ensures
            r.deep_view() == self.urls.deep_view(),
    {
        let mut plan: Vec<(String, String)> = Vec::new();
        let ghost uv = self.urls.deep_view();
        let mut i: usize = 0;
        proof {
            assert(uv.take(0) =~= Seq::<(Seq<char>, Seq<char>)>::empty());
        }
        while i < self.urls.len()
            invariant
                uv == self.urls.deep_view(),
                self.urls@.len() == uv.len(),
                0 <= i <= self.urls.len(),
                plan.deep_view() == uv.take(i as int),
            decreases self.urls.len() - i,
        {
            proof {
                assert(uv[i as int] == (self.urls@[i as int].0@, self.urls@[i as int].1@));
            }
            let ghost old_plan = plan.deep_view();
            plan.push((self.urls[i].0.clone(), self.urls[i].1.clone()));
            proof {
                assert(plan.deep_view() =~= old_plan.push(uv[i as int]));
                assert(uv.take(i as int + 1) =~= uv.take(i as int).push(uv[i as int]));
            }
            i = i + 1;
        }
        proof {
            assert(uv.take(uv.len() as int) =~= uv);
        }
        plan
    }

    /// The first endpoint of the mapping — the one the readiness probe
    /// hits.
    pub fn first_endpoint(&self) -> (r: Option<String>)
        ensures
            self.urls@.len() == 0 ==> r is None,
            self.urls@.len() > 0 ==> (r matches Some(e) && e@ == self.urls.deep_view()[0].1),
    {
        if self.urls.len() > 0 {
            proof {
                assert(self.urls.deep_view()[0] == (self.urls@[0].0@, self.urls@[0].1@));
            }
            Some(self.urls[0].1.clone())
        } else {
            None
        }
    }
}

/// The unit the toolset operates on: one framework of one language, with
/// its test implementations.
#[derive(Clone, Debug)]
pub struct Project {
    pub name: String,
    pub language: String,
    pub framework: Framework,
    pub tests: Vec<Test>,
}

} // verus!
