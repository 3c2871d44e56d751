//! The grammar of declarations and files.

use crate::syntax::ast::{BindableVisibility, MultiSlotKind, Visibility};
use crate::syntax::parser::error::{invalid_number, unexpected};
use crate::syntax::parser::expr_grammar::{ahead, expression, type_expr};
use crate::syntax::parser::grammar::{
    dim_expr, ident, number_upto, path_idents, path_last, path_span, quoted, refuse, spanned_name, stuck, Input,
    Parse,
};
use crate::syntax::parser::multi_grammar::{
    multi_rest, slot_header, slot_kind, visibility_error, visibility_prefix, without_bindability, Header, Part,
};
use crate::syntax::span::{merged, Span};
use crate::syntax::term::{node0, node1, node2, node3, node4, node5, present, Symbol, Tag, Term};
use crate::syntax::token::Token;
use vstd::prelude::*;

verus! {

/// An argument of an attribute: a path, `#n`, or a group in parentheses.
pub open spec fn attribute_arg(g: Input, p: int) -> Parse
    decreases g.end() - p, 1int,
{
    if g.is(p, Token::Hash) {
        if !g.is(p + 1, Token::Number) {
            refuse(g, p + 1, quoted(Token::Number))
        } else {
            match number_upto(g, p + 1, u64::MAX as int) {
                Some(v) => Parse::Read(
                    node2(
                        Tag::AttributeArgFinitePosition,
                        Term::Int(v),
                        Term::At(merged(g.span(p), g.span(p + 1))),
                    ),
                    p + 2,
                ),
                None => Parse::Refused(invalid_number("expected a natural number"@, g.span(p + 1))),
            }
        }
    } else if g.is(p, Token::LParen) {
        match attribute_args(g, p + 1, Seq::empty()) {
            Parse::Refused(e) => Parse::Refused(e),
            Parse::Read(elements, q) => if !g.is(q, Token::RParen) {
                refuse(g, q, quoted(Token::RParen))
            } else {
                Parse::Read(
                    node2(Tag::AttributeArgGroup, elements, Term::At(merged(g.span(p), g.span(q)))),
                    q + 1,
                )
            },
        }
    } else if g.named(p) {
        let last = path_last(g, p);
        Parse::Read(
            node2(Tag::AttributeArgPath, Term::List(path_idents(g, p, last)), Term::At(path_span(g, p, last))),
            last + 1,
        )
    } else {
        refuse(g, p, "attribute argument"@)
    }
}

/// Arguments of an attribute between commas, up to `)`.
pub open spec fn attribute_args(g: Input, p: int, items: Seq<Term>) -> Parse
    decreases g.end() - p, 2int,
{
    if g.is(p, Token::RParen) {
        Parse::Read(Term::List(items), p)
    } else {
        match attribute_arg(g, p) {
            Parse::Refused(e) => Parse::Refused(e),
            Parse::Read(item, q) => if !ahead(g, p, q) {
                stuck()
            } else if g.is(q, Token::Comma) {
                attribute_args(g, q + 1, items.push(item))
            } else {
                Parse::Read(Term::List(items.push(item)), q)
            },
        }
    }
}

/// `#[name]` or `#[name(args)]`.
pub open spec fn attribute(g: Input, p: int) -> Parse {
    if !g.is(p, Token::Hash) {
        refuse(g, p, quoted(Token::Hash))
    } else if !g.is(p + 1, Token::LBracket) {
        refuse(g, p + 1, quoted(Token::LBracket))
    } else if !g.named(p + 2) {
        refuse(g, p + 2, "identifier"@)
    } else if !g.is(p + 3, Token::LParen) {
        if !g.is(p + 3, Token::RBracket) {
            refuse(g, p + 3, quoted(Token::RBracket))
        } else {
            Parse::Read(
                node3(
                    Tag::Attribute,
                    ident(g, p + 2),
                    Term::List(Seq::empty()),
                    Term::At(merged(g.span(p), g.span(p + 3))),
                ),
                p + 4,
            )
        }
    } else {
        match attribute_args(g, p + 4, Seq::empty()) {
            Parse::Refused(e) => Parse::Refused(e),
            Parse::Read(args, q) => if !g.is(q, Token::RParen) {
                refuse(g, q, quoted(Token::RParen))
            } else if !g.is(q + 1, Token::RBracket) {
                refuse(g, q + 1, quoted(Token::RBracket))
            } else {
                Parse::Read(
                    node3(Tag::Attribute, ident(g, p + 2), args, Term::At(merged(g.span(p), g.span(q + 1)))),
                    q + 2,
                )
            },
        }
    }
}

/// Attributes as often as they follow.
pub open spec fn attributes(g: Input, p: int, items: Seq<Term>) -> Parse
    decreases g.end() - p,
{
    if !g.is(p, Token::Hash) {
        Parse::Read(Term::List(items), p)
    } else {
        match attribute(g, p) {
            Parse::Refused(e) => Parse::Refused(e),
            Parse::Read(item, q) => if ahead(g, p, q) {
                attributes(g, q, items.push(item))
            } else {
                stuck()
            },
        }
    }
}

pub open spec fn declaration_term(attributes: Seq<Term>, kind: Term, span: Span) -> Term {
    node3(Tag::Declaration, Term::List(attributes), kind, Term::At(span))
}

/// The end of a declaration: `;`.
pub open spec fn closed(g: Input, attributes: Seq<Term>, kind: Term, start: Span, p: int) -> Parse {
    if !g.is(p, Token::Semicolon) {
        refuse(g, p, quoted(Token::Semicolon))
    } else {
        Parse::Read(declaration_term(attributes, kind, merged(start, g.span(p))), p + 1)
    }
}

/// A value declaration with its value.
pub open spec fn value_kind(header: Header, value: Term) -> Term {
    let visibility = Term::Symbol(Symbol::Visibility(header.visibility));
    match header.kind {
        MultiSlotKind::Param => node1(
            Tag::DeclParam,
            node3(Tag::ParamDecl, header.name_term(), header.type_ann, present(value)),
        ),
        MultiSlotKind::Node => node1(
            Tag::DeclNode,
            node4(Tag::ValueDecl, visibility, header.name_term(), header.type_ann, value),
        ),
        MultiSlotKind::ConstNode => node1(
            Tag::DeclConstNode,
            node4(Tag::ValueDecl, visibility, header.name_term(), header.type_ann, value),
        ),
    }
}

/// A value declaration behind its header: a comma makes it the first slot of a
/// multi-declaration, which takes no attributes.
pub open spec fn value_rest(
    g: Input,
    attributes: Seq<Term>,
    start: int,
    header: Header,
    visibility: BindableVisibility,
    visibility_span: Option<Span>,
    p: int,
) -> Parse {
    if g.is(p, Token::Comma) {
        if attributes.len() > 0 {
            Parse::Refused(unexpected("no attributes on a multi-declaration"@, "#"@, g.span(start)))
        } else {
            multi_rest(g, header, visibility, visibility_span, p)
        }
    } else {
        match visibility_error(visibility, visibility_span, header.kind) {
            Some(error) => Parse::Refused(error),
            None => if header.kind == MultiSlotKind::Param && g.is(p, Token::Semicolon) {
                Parse::Read(
                    declaration_term(
                        attributes,
                        node1(
                            Tag::DeclParam,
                            node3(Tag::ParamDecl, header.name_term(), header.type_ann, Term::Absent),
                        ),
                        merged(header.kind_span, g.span(p)),
                    ),
                    p + 1,
                )
            } else if !g.is(p, Token::Eq) {
                refuse(g, p, quoted(Token::Eq))
            } else {
                match expression(g, p + 1, 0) {
                    Parse::Refused(e) => Parse::Refused(e),
                    Parse::Read(value, q) => closed(g, attributes, value_kind(header, value), header.kind_span, q),
                }
            },
        }
    }
}

pub open spec fn bindable(visibility: BindableVisibility) -> Term {
    Term::Symbol(Symbol::BindableVisibility(visibility))
}

pub open spec fn plain(visibility: BindableVisibility) -> Term {
    Term::Symbol(Symbol::Visibility(without_bindability(visibility)))
}

/// Names between commas up to `}`.
pub open spec fn variants(g: Input, p: int, items: Seq<Term>) -> Parse
    decreases g.end() - p,
{
    if g.is(p, Token::RBrace) {
        Parse::Read(Term::List(items), p)
    } else if !g.named(p) {
        refuse(g, p, "identifier"@)
    } else if g.is(p + 1, Token::Comma) {
        variants(g, p + 2, items.push(spanned_name(g, p)))
    } else {
        Parse::Read(Term::List(items.push(spanned_name(g, p))), p + 1)
    }
}

/// `index Name = { A, B };` or `index Name;`.
pub open spec fn index_decl(g: Input, attributes: Seq<Term>, visibility: BindableVisibility, p: int) -> Parse {
    if !g.named(p + 1) {
        refuse(g, p + 1, "identifier"@)
    } else if g.is(p + 2, Token::Semicolon) {
        closed(
            g,
            attributes,
            node1(
                Tag::DeclIndex,
                node3(
                    Tag::IndexDecl,
                    bindable(visibility),
                    spanned_name(g, p + 1),
                    node0(Tag::IndexDeclRequiredNamed),
                ),
            ),
            g.span(p),
            p + 2,
        )
    } else if !g.is(p + 2, Token::Eq) {
        refuse(g, p + 2, quoted(Token::Eq))
    } else if !g.is(p + 3, Token::LBrace) {
        refuse(g, p + 3, quoted(Token::LBrace))
    } else {
        match variants(g, p + 4, Seq::empty()) {
            Parse::Refused(e) => Parse::Refused(e),
            Parse::Read(names, q) => if !g.is(q, Token::RBrace) {
                refuse(g, q, quoted(Token::RBrace))
            } else {
                closed(
                    g,
                    attributes,
                    node1(
                        Tag::DeclIndex,
                        node3(
                            Tag::IndexDecl,
                            bindable(visibility),
                            spanned_name(g, p + 1),
                            node1(Tag::IndexDeclNamed, names),
                        ),
                    ),
                    g.span(p),
                    q + 1,
                )
            },
        }
    }
}

/// `field: Type` between commas up to `)`.
pub open spec fn field_decls(g: Input, p: int, items: Seq<Term>) -> Parse
    decreases g.end() - p,
{
    if g.is(p, Token::RParen) {
        Parse::Read(Term::List(items), p)
    } else if !g.named(p) {
        refuse(g, p, "identifier"@)
    } else if !g.is(p + 1, Token::Colon) {
        refuse(g, p + 1, quoted(Token::Colon))
    } else {
        match type_expr(g, p + 2, 0) {
            Parse::Refused(e) => Parse::Refused(e),
            Parse::Read(t, q) => {
                let all = items.push(node2(Tag::FieldDecl, spanned_name(g, p), t));
                if !ahead(g, p, q) {
                    stuck()
                } else if g.is(q, Token::Comma) {
                    field_decls(g, q + 1, all)
                } else {
                    Parse::Read(Term::List(all), q)
                }
            },
        }
    }
}

/// `Name` or `Name(fields)`.
pub open spec fn union_member(g: Input, p: int) -> Parse {
    if !g.named(p) {
        refuse(g, p, "identifier"@)
    } else if !g.is(p + 1, Token::LParen) {
        Parse::Read(node3(Tag::UnionMember, spanned_name(g, p), Term::Absent, Term::At(g.span(p))), p + 1)
    } else {
        match field_decls(g, p + 2, Seq::empty()) {
            Parse::Refused(e) => Parse::Refused(e),
            Parse::Read(fields, q) => if !g.is(q, Token::RParen) {
                refuse(g, q, quoted(Token::RParen))
            } else {
                Parse::Read(
                    node3(
                        Tag::UnionMember,
                        spanned_name(g, p),
                        present(fields),
                        Term::At(merged(g.span(p), g.span(q))),
                    ),
                    q + 1,
                )
            },
        }
    }
}

/// Constructors between commas up to `}`.
pub open spec fn union_members(g: Input, p: int, items: Seq<Term>) -> Parse
    decreases g.end() - p,
{
    if g.is(p, Token::RBrace) {
        Parse::Read(Term::List(items), p)
    } else {
        match union_member(g, p) {
            Parse::Refused(e) => Parse::Refused(e),
            Parse::Read(item, q) => if !ahead(g, p, q) {
                stuck()
            } else if g.is(q, Token::Comma) {
                union_members(g, q + 1, items.push(item))
            } else {
                Parse::Read(Term::List(items.push(item)), q)
            },
        }
    }
}

pub open spec fn type_decl_term(g: Input, visibility: BindableVisibility, p: int, body: Term) -> Term {
    node1(
        Tag::DeclType,
        node4(Tag::TypeDecl, bindable(visibility), spanned_name(g, p + 1), Term::List(Seq::empty()), body),
    )
}

/// `type Name { constructors }` or `type Name;`.
pub open spec fn type_decl(g: Input, attributes: Seq<Term>, visibility: BindableVisibility, p: int) -> Parse {
    if !g.named(p + 1) {
        refuse(g, p + 1, "identifier"@)
    } else if g.is(p + 2, Token::Semicolon) {
        closed(
            g,
            attributes,
            type_decl_term(g, visibility, p, node0(Tag::TypeDeclBodyRequired)),
            g.span(p),
            p + 2,
        )
    } else if !g.is(p + 2, Token::LBrace) {
        refuse(g, p + 2, quoted(Token::LBrace))
    } else {
        match union_members(g, p + 3, Seq::empty()) {
            Parse::Refused(e) => Parse::Refused(e),
            Parse::Read(members, q) => if !g.is(q, Token::RBrace) {
                refuse(g, q, quoted(Token::RBrace))
            } else {
                Parse::Read(
                    declaration_term(
                        attributes,
                        type_decl_term(g, visibility, p, node1(Tag::TypeDeclBodyConstructors, members)),
                        merged(g.span(p), g.span(q)),
                    ),
                    q + 1,
                )
            },
        }
    }
}

/// `base dim Name;` or `base unit name: Dim;`.
pub open spec fn base_decl(g: Input, attributes: Seq<Term>, visibility: BindableVisibility, p: int) -> Parse {
    if g.is(p + 1, Token::Dim) {
        if !g.named(p + 2) {
            refuse(g, p + 2, "identifier"@)
        } else {
            closed(
                g,
                attributes,
                node1(Tag::DeclBaseDimension, node2(Tag::BaseDimDecl, plain(visibility), spanned_name(g, p + 2))),
                g.span(p),
                p + 3,
            )
        }
    } else if !g.is(p + 1, Token::Unit) {
        refuse(g, p + 1, "`dim` or `unit`"@)
    } else if !g.named(p + 2) {
        refuse(g, p + 2, "identifier"@)
    } else if !g.is(p + 3, Token::Colon) {
        refuse(g, p + 3, quoted(Token::Colon))
    } else {
        match dim_expr(g, p + 4) {
            Parse::Refused(e) => Parse::Refused(e),
            Parse::Read(dim, q) => closed(
                g,
                attributes,
                node1(
                    Tag::DeclUnit,
                    node5(
                        Tag::UnitDecl,
                        plain(visibility),
                        Term::Symbol(Symbol::UnitConstness(crate::syntax::ast::UnitConstness::Const)),
                        spanned_name(g, p + 2),
                        dim,
                        Term::Absent,
                    ),
                ),
                g.span(p),
                q,
            ),
        }
    }
}

/// `dim Name = dims;`.
pub open spec fn dim_decl(g: Input, attributes: Seq<Term>, visibility: BindableVisibility, p: int) -> Parse {
    if !g.named(p + 1) {
        refuse(g, p + 1, "identifier"@)
    } else if !g.is(p + 2, Token::Eq) {
        refuse(g, p + 2, quoted(Token::Eq))
    } else {
        match dim_expr(g, p + 3) {
            Parse::Refused(e) => Parse::Refused(e),
            Parse::Read(dim, q) => closed(
                g,
                attributes,
                node1(Tag::DeclDimension, node3(Tag::DimDecl, plain(visibility), spanned_name(g, p + 1), dim)),
                g.span(p),
                q,
            ),
        }
    }
}

/// `name` or `name as alias`, between commas up to `}`.
pub open spec fn import_items(g: Input, p: int, items: Seq<Term>) -> Parse
    decreases g.end() - p,
{
    if g.is(p, Token::RBrace) {
        Parse::Read(Term::List(items), p)
    } else if !g.named(p) {
        refuse(g, p, "identifier"@)
    } else if g.is(p + 1, Token::As) && !g.named(p + 2) {
        refuse(g, p + 2, "identifier"@)
    } else {
        let renamed = g.is(p + 1, Token::As);
        let q = if renamed { p + 3 } else { p + 1 };
        let all = items.push(
            node5(
                Tag::ImportItem,
                Term::List(Seq::empty()),
                Term::Flag(false),
                Term::Absent,
                ident(g, p),
                if renamed { present(ident(g, p + 2)) } else { Term::Absent },
            ),
        );
        if g.is(q, Token::Comma) {
            import_items(g, q + 1, all)
        } else {
            Parse::Read(Term::List(all), q)
        }
    }
}

pub open spec fn import_term(g: Input, p: int, last: int, kind: Term) -> Term {
    node1(
        Tag::DeclImport,
        node2(
            Tag::ImportDecl,
            node2(Tag::ModulePath, Term::List(path_idents(g, p, last)), Term::At(path_span(g, p, last))),
            kind,
        ),
    )
}

/// `import path;`, `import path as alias;` or `import path.{items};`.
pub open spec fn import_decl(g: Input, attributes: Seq<Term>, p: int) -> Parse {
    if !g.named(p + 1) {
        refuse(g, p + 1, "identifier"@)
    } else {
        let last = path_last(g, p + 1);
        if g.is(last + 1, Token::Dot) && g.is(last + 2, Token::LBrace) {
            match import_items(g, last + 3, Seq::empty()) {
                Parse::Refused(e) => Parse::Refused(e),
                Parse::Read(items, q) => if !g.is(q, Token::RBrace) {
                    refuse(g, q, quoted(Token::RBrace))
                } else {
                    closed(
                        g,
                        attributes,
                        import_term(g, p + 1, last, node1(Tag::ImportSelective, items)),
                        g.span(p),
                        q + 1,
                    )
                },
            }
        } else if !g.is(last + 1, Token::As) {
            closed(
                g,
                attributes,
                import_term(g, p + 1, last, node1(Tag::ImportModule, Term::Absent)),
                g.span(p),
                last + 1,
            )
        } else if !g.named(last + 2) {
            refuse(g, last + 2, "identifier"@)
        } else {
            closed(
                g,
                attributes,
                import_term(g, p + 1, last, node1(Tag::ImportModule, present(spanned_name(g, last + 2)))),
                g.span(p),
                last + 3,
            )
        }
    }
}

/// A value declaration behind its attributes and visibility.
pub open spec fn value_decl(
    g: Input,
    attributes: Seq<Term>,
    start: int,
    visibility: BindableVisibility,
    span: Option<Span>,
    p: int,
) -> Parse {
    match slot_kind(g, p) {
        Part::Refused(e) => Parse::Refused(e),
        Part::Read((kind, kind_span), q) => match slot_header(g, visibility, kind, kind_span, q) {
            Part::Refused(e) => Parse::Refused(e),
            Part::Read(header, r) => value_rest(g, attributes, start, header, visibility, span, r),
        },
    }
}

/// A declaration behind its attributes and visibility.
pub open spec fn bare_declaration(
    g: Input,
    attributes: Seq<Term>,
    start: int,
    visibility: BindableVisibility,
    span: Option<Span>,
    p: int,
) -> Parse {
    match g.token(p) {
        Some(Token::Param) => value_decl(g, attributes, start, visibility, span, p),
        Some(Token::Node) => value_decl(g, attributes, start, visibility, span, p),
        Some(Token::Const) => value_decl(g, attributes, start, visibility, span, p),
        Some(Token::Index) => index_decl(g, attributes, visibility, p),
        Some(Token::Type) => type_decl(g, attributes, visibility, p),
        Some(Token::Base) => base_decl(g, attributes, visibility, p),
        Some(Token::Dim) => dim_decl(g, attributes, visibility, p),
        Some(Token::Import) => import_decl(g, attributes, p),
        _ => refuse(g, p, "declaration"@),
    }
}

/// A declaration.
pub open spec fn declaration(g: Input, p: int) -> Parse {
    match attributes(g, p, Seq::empty()) {
        Parse::Read(Term::List(items), q) => match visibility_prefix(g, q) {
            Part::Refused(e) => Parse::Refused(e),
            Part::Read((visibility, span), r) => bare_declaration(g, items, p, visibility, span, r),
        },
        Parse::Read(_, _) => stuck(),
        Parse::Refused(e) => Parse::Refused(e),
    }
}

/// Declarations up to the end of the source.
pub open spec fn declarations(g: Input, p: int, items: Seq<Term>) -> Parse
    decreases g.end() - p,
{
    if p >= g.end() {
        Parse::Read(Term::List(items), p)
    } else {
        match declaration(g, p) {
            Parse::Refused(e) => Parse::Refused(e),
            Parse::Read(item, q) => if ahead(g, p, q) { declarations(g, q, items.push(item)) } else { stuck() },
        }
    }
}

/// A whole file.
pub open spec fn file(g: Input) -> Parse {
    match declarations(g, 0, Seq::empty()) {
        Parse::Read(items, q) => Parse::Read(node1(Tag::File, items), q),
        Parse::Refused(e) => Parse::Refused(e),
    }
}

/// An expression that is the whole source.
pub open spec fn single_expression(g: Input) -> Parse {
    match expression(g, 0, 0) {
        Parse::Read(e, q) => if q == g.end() {
            Parse::Read(e, q)
        } else {
            refuse(g, q, "end of input"@)
        },
        Parse::Refused(e) => Parse::Refused(e),
    }
}

} // verus!
