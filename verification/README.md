# wakaru_rules

Rewrite rules that give minified or transpiled JavaScript its plain form back, written
and proved in Verus.

| Rule | Before | After |
| --- | --- | --- |
| `UnArgumentSpread` | `fn.apply(undefined, args)`, `Reflect.apply(fn, undefined, args)` | `fn(...args)` |
| `UnHasOwnCall` | `Object.prototype.hasOwnProperty.call(object, key)` | `Object.hasOwn(object, key)` |
| `UnInfinity` | `1 / 0` | `Infinity` |

- `src/` is the library. `syntax` holds the syntax that the rules work on and its
  mathematical value, `rewrite` the traversal, and a module of its own each rule. What
  holds of a rule as a whole (when it changes nothing, what it leaves over) is proved in
  the modules whose names end in `_laws`.
- `app/` runs the rules as passes over swc's syntax trees.
- `tests/` runs the rules on source text and on syntax built by hand.
