//! Assembling an application from plugins.
//!
//! A plugin is built into the application at the moment it is added, so a
//! plugin that adds plugins of its own has them built right after itself.

use vstd::prelude::*;

verus! {

/// A part of an application.
pub trait Plugin {
    /// Builds the plugin into the application. It may add plugins of its
    /// own, and may not take away what was added before.
    fn build(&self, builder: &mut AppBuilder)
        ensures
            final(builder).extends(*old(builder)),
    ;

    /// The name under which the plugin is registered.
    fn name(&self) -> String;

    /// Whether the plugin may be added only once. A plugin that does not
    /// say otherwise may be added only once.
    fn is_unique(&self) -> (unique: bool)
        default_ensures
            unique,
    {
        true
    }
}

/// Why a plugin was not added.
#[derive(Debug)]
pub enum AppError {
    /// A plugin of this name was added before, and may be added only once.
    DuplicatePlugin { plugin_name: String },
}

/// An application: the plugins that it is made of.
#[derive(Debug)]
pub struct App {
    /// The names of the plugins, in the order in which they were built.
    pub plugins: Vec<String>,
}

impl Default for App {
    fn default() -> (app: Self)
        ensures
            app.plugins@.len() == 0,
    {
        App { plugins: Vec::new() }
    }
}

/// The characters of each of `names`.
pub open spec fn name_views(names: Seq<String>) -> Seq<Seq<char>> {
    Seq::new(names.len(), |i: int| names[i]@)
}

/// Whether `s` starts with `prefix`.
pub open spec fn starts_with<T>(s: Seq<T>, prefix: Seq<T>) -> bool {
    prefix.len() <= s.len() && s.subrange(0, prefix.len() as int) == prefix
}

/// Collects the plugins of an application.
pub struct AppBuilder {
    plugin_registry: Vec<String>,
    plugin_name_added: Vec<String>,
    app: Option<App>,
}

impl AppBuilder {
    /// The names of the plugins added, in the order in which they were
    /// added.
    pub closed spec fn added(&self) -> Seq<Seq<char>> {
        name_views(self.plugin_registry@)
    }

    /// The names that may not be added again: those of the plugins added
    /// that may be added only once.
    pub closed spec fn taken(&self) -> Seq<Seq<char>> {
        name_views(self.plugin_name_added@)
    }

    /// The application that the builder was made from, if any.
    pub closed spec fn base(&self) -> Option<App> {
        self.app
    }

    /// Whether this builder is `before` with more added: nothing that
    /// `before` holds was taken away.
    pub open spec fn extends(&self, before: AppBuilder) -> bool {
        &&& starts_with(self.added(), before.added())
        &&& starts_with(self.taken(), before.taken())
    }

    /// Whether a plugin of the given name and kind is refused: it may be
    /// added only once, and its name is taken.
    pub open spec fn refuses(&self, name: Seq<char>, unique: bool) -> bool {
        unique && self.taken().contains(name)
    }

    /// A builder extends itself.
    pub proof fn lemma_extends_itself(&self)
        ensures
            self.extends(*self),
    {
        assert(self.added().subrange(0, self.added().len() as int) =~= self.added());
        assert(self.taken().subrange(0, self.taken().len() as int) =~= self.taken());
    }

    /// What extends an extension extends what that one extends.
    pub proof fn lemma_extends_is_transitive(&self, middle: AppBuilder, first: AppBuilder)
        requires
            self.extends(middle),
            middle.extends(first),
        ensures
            self.extends(first),
    {
        assert(self.added().subrange(0, first.added().len() as int) =~= self.added().subrange(
            0,
            middle.added().len() as int,
        ).subrange(0, first.added().len() as int));
        assert(self.taken().subrange(0, first.taken().len() as int) =~= self.taken().subrange(
            0,
            middle.taken().len() as int,
        ).subrange(0, first.taken().len() as int));
    }

    /// A builder without plugins.
    pub fn new() -> (builder: Self)
        ensures
            builder.added() == Seq::<Seq<char>>::empty(),
            builder.taken() == Seq::<Seq<char>>::empty(),
            builder.base().is_none(),
    {
        let builder = AppBuilder {
            plugin_registry: Vec::new(),
            plugin_name_added: Vec::new(),
            app: None,
        };
        assert(builder.added() =~= Seq::<Seq<char>>::empty());
        assert(builder.taken() =~= Seq::<Seq<char>>::empty());
        builder
    }

    /// A builder without plugins, for an application that exists.
    pub fn from_app(app: App) -> (builder: Self)
        ensures
            builder.added() == Seq::<Seq<char>>::empty(),
            builder.taken() == Seq::<Seq<char>>::empty(),
            builder.base() == Some(app),
    {
        let builder = AppBuilder {
            plugin_registry: Vec::new(),
            plugin_name_added: Vec::new(),
            app: Some(app),
        };
        assert(builder.added() =~= Seq::<Seq<char>>::empty());
        assert(builder.taken() =~= Seq::<Seq<char>>::empty());
        builder
    }

    /// Registers a plugin by its name. A plugin that may be added only
    /// once is refused if its name is taken, and takes its name otherwise.
    pub fn register(&mut self, name: String, unique: bool) -> (r: Result<(), AppError>)
        ensures
            final(self).base() == old(self).base(),
            final(self).extends(*old(self)),
            match r {
                Ok(()) => {
                    &&& !old(self).refuses(name@, unique)
                    &&& final(self).added() == old(self).added().push(name@)
                    &&& final(self).taken() == if unique {
                        old(self).taken().push(name@)
                    } else {
                        old(self).taken()
                    }
                },
                Err(AppError::DuplicatePlugin { plugin_name }) => {
                    &&& old(self).refuses(name@, unique)
                    &&& plugin_name@ == name@
                    &&& final(self).added() == old(self).added()
                    &&& final(self).taken() == old(self).taken()
                },
            },
    {
        if unique {
            if self.is_taken(&name) {
                proof {
                    self.lemma_extends_itself();
                }
                return Err(AppError::DuplicatePlugin { plugin_name: name });
            }
            self.plugin_name_added.push(name.clone());
            assert(self.taken() =~= old(self).taken().push(name@));
        }
        self.plugin_registry.push(name);
        assert(self.added() =~= old(self).added().push(name@));
        assert(self.added().subrange(0, old(self).added().len() as int) =~= old(self).added());
        assert(self.taken().subrange(0, old(self).taken().len() as int) =~= old(self).taken());
        Ok(())
    }

    /// Whether `name` may not be added again.
    fn is_taken(&self, name: &String) -> (taken: bool)
        ensures
            taken == self.taken().contains(name@),
    {
        let n = self.plugin_name_added.len();
        let mut i: usize = 0;
        while i < n
            invariant
                n == self.plugin_name_added@.len(),
                i <= n,
                forall|j: int| 0 <= j < i ==> self.taken()[j] != name@,
            decreases n - i,
        {
            if self.plugin_name_added[i] == *name {
                assert(self.taken()[i as int] == name@);
                return true;
            }
            i += 1;
        }
        false
    }

    /// Adds a single plugin, and builds it into the application.
    ///
    /// The plugin must be one that the builder does not refuse: whatever
    /// name and kind it gives itself, the name is not taken if the plugin
    /// may be added only once.
    pub fn add_plugin<T: Plugin>(&mut self, plugin: T) -> (ret: &mut Self)
        requires
            forall|name: String, unique: bool|
                call_ensures(T::name, (&plugin,), name) && call_ensures(
                    T::is_unique,
                    (&plugin,),
                    unique,
                ) ==> !old(self).refuses(name@, unique),
        ensures
            ret.extends(*old(self)),
            ret.added().len() > old(self).added().len(),
            exists|name: String, unique: bool|
                {
                    &&& call_ensures(T::name, (&plugin,), name)
                    &&& call_ensures(T::is_unique, (&plugin,), unique)
                    &&& ret.added()[old(self).added().len() as int] == name@
                    &&& unique ==> ret.taken().len() > old(self).taken().len()
                        && ret.taken()[old(self).taken().len() as int] == name@
                },
            *final(self) == *final(ret),
    {
        match self.add_boxed_plugin(Box::new(plugin)) {
            Ok(()) => {},
            Err(_) => {
                vstd::pervasive::unreached::<()>();
            },
        }
        self
    }

    /// Adds a single plugin, and builds it into the application, unless it
    /// may be added only once and its name is taken: then it is refused, and
    /// the builder stays as it is.
    pub fn add_boxed_plugin<T: Plugin + ?Sized>(&mut self, plugin: Box<T>) -> (r: Result<
        (),
        AppError,
    >)
        ensures
            final(self).extends(*old(self)),
            exists|name: String, unique: bool|
                {
                    &&& call_ensures(T::name, (&*plugin,), name)
                    &&& call_ensures(T::is_unique, (&*plugin,), unique)
                    &&& match r {
                        Ok(()) => {
                            &&& !old(self).refuses(name@, unique)
                            &&& final(self).added().len() > old(self).added().len()
                            &&& final(self).added()[old(self).added().len() as int] == name@
                            &&& unique ==> final(self).taken().len() > old(self).taken().len()
                                && final(self).taken()[old(self).taken().len() as int] == name@
                        },
                        Err(AppError::DuplicatePlugin { plugin_name }) => {
                            &&& old(self).refuses(name@, unique)
                            &&& plugin_name@ == name@
                            &&& final(self).added() == old(self).added()
                            &&& final(self).taken() == old(self).taken()
                        },
                    }
                },
    {
        let name = plugin.name();
        let unique = plugin.is_unique();
        let ghost given = name;
        match self.register(name, unique) {
            Ok(()) => {
                let ghost registered = *self;
                plugin.build(self);
                proof {
                    self.lemma_extends_is_transitive(registered, *old(self));
                    let at = old(self).added().len() as int;
                    assert(self.added().subrange(0, registered.added().len() as int)[at]
                        == self.added()[at]);
                    if unique {
                        let slot = old(self).taken().len() as int;
                        assert(self.taken().subrange(0, registered.taken().len() as int)[slot]
                            == self.taken()[slot]);
                    }
                    assert(call_ensures(T::name, (&*plugin,), given)
                        && call_ensures(T::is_unique, (&*plugin,), unique)
                        && self.added()[at] == given@);
                }
                Ok(())
            },
            Err(e) => {
                assert(call_ensures(T::name, (&*plugin,), given)
                    && call_ensures(T::is_unique, (&*plugin,), unique)
                    && old(self).refuses(given@, unique));
                Err(e)
            },
        }
    }

    /// Checks if a plugin of the given name has been added.
    pub fn is_plugin_added(&self, name: &String) -> (added: bool)
        ensures
            added == self.added().contains(name@),
    {
        let n = self.plugin_registry.len();
        let mut i: usize = 0;
        while i < n
            invariant
                n == self.plugin_registry@.len(),
                i <= n,
                forall|j: int| 0 <= j < i ==> self.added()[j] != name@,
            decreases n - i,
        {
            if self.plugin_registry[i] == *name {
                assert(self.added()[i as int] == name@);
                return true;
            }
            i += 1;
        }
        false
    }

    /// The application that is being built, for changing it. A builder that
    /// was made without one gets an empty one.
    pub fn app(&mut self) -> (app: &mut App)
        ensures
            match old(self).base() {
                Some(base) => *app == base,
                None => app.plugins@.len() == 0,
            },
            final(self).base() == Some(*final(app)),
            final(self).added() == old(self).added(),
            final(self).taken() == old(self).taken(),
    {
        if self.app.is_none() {
            self.app = Some(App::default());
        }
        self.app.as_mut().unwrap()
    }

    /// The application, made of what it was made of before and of the
    /// plugins added, in their order.
    pub fn build(self) -> (app: App)
        ensures
            name_views(app.plugins@) == match self.base() {
                Some(base) => name_views(base.plugins@) + self.added(),
                None => self.added(),
            },
    {
        let mut app = match self.app {
            Some(app) => app,
            None => App::default(),
        };
        let ghost start = name_views(app.plugins@);
        let mut registry = self.plugin_registry;
        let ghost all = name_views(registry@);
        app.plugins.append(&mut registry);
        assert(name_views(app.plugins@) =~= start + all);
        assert(start + all =~= match self.base() {
            Some(base) => name_views(base.plugins@) + self.added(),
            None => self.added(),
        });
        app
    }
}

} // verus!
