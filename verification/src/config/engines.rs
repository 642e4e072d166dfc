//! Which search engines a search uses: the lists of engines and the modes that
//! pick among them.
use vstd::prelude::*;
use crate::text::{concat3, keep_in, owned, remove_all, render_debug_strings, debug_strings, str_eq, strs, vec_has_string};

verus! {

/// How the engines of a search are chosen.
#[derive(Debug, Clone)]
pub enum EngineMode {
    /// The global list.
    Global,
    /// The engines the user names, as far as they are available.
    Custom(Vec<String>),
    /// The fast engines.
    Fast,
    /// The deep-web engines.
    DeepWeb,
}

impl Default for EngineMode {
    fn default() -> (m: Self)
        ensures
            m is Global,
    {
        EngineMode::Global
    }
}

/// The lists of engines.
#[derive(Debug, Clone)]
pub struct EngineListConfig {
    /// Engines of the global mode.
    pub global_engines: Vec<String>,
    /// Every engine that can be used.
    pub all_available_engines: Vec<String>,
    /// The fast engines.
    pub fast_engines: Vec<String>,
    /// The deep-web engines.
    pub deepweb_engines: Vec<String>,
}

/// The engines shipped with the application.
pub open spec fn shipped_engines() -> Seq<Seq<char>> {
    seq!["yandex"@, "bing"@, "baidu"@, "so"@, "sogou"@, "bilibili"@, "unsplash"@,
        "bing_images"@, "sogou_videos"@, "xinhua"@]
}

/// The engines a mode picks from `c`.
pub open spec fn engines_for_mode(c: &EngineListConfig, mode: &EngineMode) -> Seq<Seq<char>> {
    match mode {
        EngineMode::Global => strs(c.global_engines@),
        EngineMode::Custom(names) => keep_in(strs(names@), strs(c.all_available_engines@)),
        EngineMode::Fast => strs(c.fast_engines@),
        EngineMode::DeepWeb => strs(c.deepweb_engines@),
    }
}

/// A list of the shipped engines.
fn shipped_list() -> (v: Vec<String>)
    ensures
        strs(v@) == shipped_engines(),
{
    let v = vec![
        owned("yandex"), owned("bing"), owned("baidu"), owned("so"), owned("sogou"),
        owned("bilibili"), owned("unsplash"), owned("bing_images"), owned("sogou_videos"), owned("xinhua"),
    ];
    assert(strs(v@) =~= shipped_engines());
    v
}

/// The strings of `v` other than `s`, in order.
fn without(v: &Vec<String>, s: &str) -> (r: Vec<String>)
    ensures
        strs(r@) == remove_all(strs(v@), s@),
{
    let mut r: Vec<String> = Vec::new();
    let mut i: usize = 0;
    assert(strs(v@).take(0) =~= Seq::<Seq<char>>::empty());
    while i < v.len()
        invariant
            i <= v.len(),
            strs(r@) == remove_all(strs(v@).take(i as int), s@),
        decreases v.len() - i,
    {
        assert(strs(v@).take(i + 1).drop_last() =~= strs(v@).take(i as int));
        if !str_eq(v[i].as_str(), s) {
            r.push(v[i].clone());
        }
        i = i + 1;
        assert(strs(r@) =~= remove_all(strs(v@).take(i as int), s@));
    }
    assert(strs(v@).take(i as int) =~= strs(v@));
    r
}

/// The strings of `v` that occur in `avail`, in order.
fn kept_in(v: &Vec<String>, avail: &Vec<String>) -> (r: Vec<String>)
    ensures
        strs(r@) == keep_in(strs(v@), strs(avail@)),
{
    let mut r: Vec<String> = Vec::new();
    let mut i: usize = 0;
    assert(strs(v@).take(0) =~= Seq::<Seq<char>>::empty());
    while i < v.len()
        invariant
            i <= v.len(),
            strs(r@) == keep_in(strs(v@).take(i as int), strs(avail@)),
        decreases v.len() - i,
    {
        assert(strs(v@).take(i + 1).drop_last() =~= strs(v@).take(i as int));
        if vec_has_string(avail, v[i].as_str()) {
            r.push(v[i].clone());
        }
        i = i + 1;
        assert(strs(r@) =~= keep_in(strs(v@).take(i as int), strs(avail@)));
    }
    assert(strs(v@).take(i as int) =~= strs(v@));
    r
}

/// A copy of a list of strings.
fn copy_strings(v: &Vec<String>) -> (r: Vec<String>)
    ensures
        strs(r@) == strs(v@),
{
    let mut r: Vec<String> = Vec::new();
    let mut i: usize = 0;
    while i < v.len()
        invariant
            i <= v.len(),
            strs(r@) == strs(v@).take(i as int),
        decreases v.len() - i,
    {
        let ghost before = r@;
        r.push(v[i].clone());
        assert(strs(r@) =~= strs(before).push(v@[i as int]@));
        assert(strs(v@).take(i + 1) =~= strs(v@).take(i as int).push(v@[i as int]@));
        i = i + 1;
    }
    assert(strs(v@).take(i as int) =~= strs(v@));
    r
}

impl Default for EngineListConfig {
    /// Every shipped engine is available and global; the fast ones are all but
    /// `xinhua`, which alone is deep-web.
    fn default() -> (c: Self)
        ensures
            strs(c.all_available_engines@) == shipped_engines(),
            strs(c.global_engines@) == shipped_engines(),
            strs(c.fast_engines@) == remove_all(shipped_engines(), "xinhua"@),
            strs(c.deepweb_engines@) == seq!["xinhua"@],
    {
        let all_engines = shipped_list();
        let global_engines = shipped_list();
        let fast_engines = without(&all_engines, "xinhua");
        let deepweb_engines = vec![owned("xinhua")];
        assert(strs(deepweb_engines@) =~= seq!["xinhua"@]);
        EngineListConfig { global_engines, all_available_engines: all_engines, fast_engines, deepweb_engines }
    }
}

impl EngineListConfig {
    /// The engines a mode picks: a list of the configuration, or for `Custom` the
    /// named engines that are available, in the order named.
    pub fn get_engines_for_mode(&self, mode: &EngineMode) -> (v: Vec<String>)
        ensures
            strs(v@) == engines_for_mode(self, mode),
    {
        match mode {
            EngineMode::Global => copy_strings(&self.global_engines),
            EngineMode::Custom(engines) => kept_in(engines, &self.all_available_engines),
            EngineMode::Fast => copy_strings(&self.fast_engines),
            EngineMode::DeepWeb => copy_strings(&self.deepweb_engines),
        }
    }

    /// Whether `engine` is available.
    pub fn is_engine_available(&self, engine: &str) -> (b: bool)
        ensures
            b == strs(self.all_available_engines@).contains(engine@),
    {
        vec_has_string(&self.all_available_engines, engine)
    }

    /// Adds an available engine to the global list unless it is there already;
    /// an unavailable engine is refused and nothing changes.
    pub fn add_global_engine(&mut self, engine: String) -> (r: Result<(), String>)
        ensures
            strs(final(self).all_available_engines@) == strs(old(self).all_available_engines@),
            final(self).fast_engines@ == old(self).fast_engines@,
            final(self).deepweb_engines@ == old(self).deepweb_engines@,
            match r {
                Ok(()) => {
                    &&& strs(old(self).all_available_engines@).contains(engine@)
                    &&& strs(final(self).global_engines@) == (if strs(old(self).global_engines@).contains(engine@) {
                            strs(old(self).global_engines@)
                        } else {
                            strs(old(self).global_engines@).push(engine@)
                        })
                },
                Err(m) => {
                    &&& !strs(old(self).all_available_engines@).contains(engine@)
                    &&& m@ == "Engine '"@ + engine@ + "' is not available"@
                    &&& final(self).global_engines@ == old(self).global_engines@
                },
            },
    {
        if !self.is_engine_available(engine.as_str()) {
            return Err(concat3("Engine '", engine.as_str(), "' is not available"));
        }
        if !vec_has_string(&self.global_engines, engine.as_str()) {
            let ghost before = self.global_engines@;
            self.global_engines.push(engine);
            assert(strs(self.global_engines@) =~= strs(before).push(engine@));
        }
        Ok(())
    }

    /// Removes every occurrence of `engine` from the global list.
    pub fn remove_global_engine(&mut self, engine: &str)
        ensures
            strs(final(self).global_engines@) == remove_all(strs(old(self).global_engines@), engine@),
            final(self).all_available_engines@ == old(self).all_available_engines@,
            final(self).fast_engines@ == old(self).fast_engines@,
            final(self).deepweb_engines@ == old(self).deepweb_engines@,
    {
        self.global_engines = without(&self.global_engines, engine);
    }

    /// The global engines of the default lists.
    pub fn get_default_engines() -> (v: Vec<String>)
        ensures
            strs(v@) == shipped_engines(),
    {
        let config = EngineListConfig::default();
        config.global_engines
    }

    /// Succeeds when every engine of `engines` is available; otherwise names the
    /// first that is not, with the list of available engines.
    pub fn validate_engines(&self, engines: &Vec<String>) -> (r: Result<(), String>)
        ensures
            match r {
                Ok(()) => forall|i: int| 0 <= i < engines@.len()
                    ==> strs(self.all_available_engines@).contains(#[trigger] engines@[i]@),
                Err(m) => exists|i: int| 0 <= i < engines@.len()
                    && !strs(self.all_available_engines@).contains(#[trigger] engines@[i]@)
                    && (forall|j: int| 0 <= j < i ==> strs(self.all_available_engines@).contains(#[trigger] engines@[j]@))
                    && m@ == "Engine '"@ + engines@[i]@ + "' is not available. Available engines: "@
                        + debug_strings(strs(self.all_available_engines@)),
            },
    {
        let mut i: usize = 0;
        while i < engines.len()
            invariant
                i <= engines.len(),
                forall|j: int| 0 <= j < i ==> strs(self.all_available_engines@).contains(#[trigger] engines@[j]@),
            decreases engines.len() - i,
        {
            if !self.is_engine_available(engines[i].as_str()) {
                let mut m = concat3("Engine '", engines[i].as_str(), "' is not available. Available engines: ");
                let d = render_debug_strings(&self.all_available_engines);
                m.append(d.as_str());
                return Err(m);
            }
            i = i + 1;
        }
        Ok(())
    }

    /// The engines of `engines` that are available, in order.
    pub fn filter_available_engines(&self, engines: &Vec<String>) -> (v: Vec<String>)
        ensures
            strs(v@) == keep_in(strs(engines@), strs(self.all_available_engines@)),
    {
        kept_in(engines, &self.all_available_engines)
    }
}

/// The engines that filtering keeps are all available, so the filtered list
/// passes `validate_engines`.
pub proof fn law_filtered_engines_validate(engines: Seq<Seq<char>>, avail: Seq<Seq<char>>)
    ensures
        forall|i: int| 0 <= i < keep_in(engines, avail).len() ==> avail.contains(#[trigger] keep_in(engines, avail)[i]),
    decreases engines.len(),
{
    if engines.len() > 0 {
        law_filtered_engines_validate(engines.drop_last(), avail);
        let pre = keep_in(engines.drop_last(), avail);
        assert forall|i: int| 0 <= i < keep_in(engines, avail).len() implies avail.contains(#[trigger] keep_in(engines, avail)[i]) by {
            if i < pre.len() {
                assert(keep_in(engines, avail)[i] == pre[i]);
            }
        }
    }
}

/// An engine removed from the global list is no longer in it.
pub proof fn law_removed_engine_absent(global: Seq<Seq<char>>, engine: Seq<char>)
    ensures
        !remove_all(global, engine).contains(engine),
    decreases global.len(),
{
    if global.len() > 0 {
        law_removed_engine_absent(global.drop_last(), engine);
        let pre = remove_all(global.drop_last(), engine);
        if remove_all(global, engine).contains(engine) {
            let i = choose|i: int| 0 <= i < remove_all(global, engine).len() && remove_all(global, engine)[i] == engine;
            if i < pre.len() {
                assert(pre[i] == engine);
            }
        }
    }
}

} // verus!
